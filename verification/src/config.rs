//! The program registry: an ordered collection of installed programs in
//! which no two entries share a name.

use vstd::prelude::*;
use crate::error::AppError;
use crate::program::{Program, ProgramV};
use crate::text::str_eq;

verus! {

/// The registry of installed programs.
pub struct Config {
    pub programs: Vec<Program>,
}

/// Mathematical image of a [`Config`].
#[verifier::ext_equal]
pub ghost struct ConfigV {
    pub programs: Seq<ProgramV>,
}

impl View for Config {
    type V = ConfigV;

    open spec fn view(&self) -> ConfigV {
        ConfigV { programs: self.programs.deep_view() }
    }
}

/// Index of the first program of `ps` named `name`, if any.
pub open spec fn spec_find(ps: Seq<ProgramV>, name: Seq<char>) -> Option<int>
    decreases ps.len(),
{
    if ps.len() == 0 {
        None
    } else if ps[0].name == name {
        Some(0)
    } else {
        match spec_find(ps.drop_first(), name) {
            Some(i) => Some(i + 1),
            None => None,
        }
    }
}

/// Whether some program of `c` carries `name`.
pub open spec fn has_program(c: ConfigV, name: Seq<char>) -> bool {
    spec_find(c.programs, name) is Some
}

/// The registry invariant: no two programs share a name.
pub open spec fn wf(c: ConfigV) -> bool {
    forall|i: int, j: int|
        0 <= i < j < c.programs.len() ==> c.programs[i].name != c.programs[j].name
}

/// What [`spec_find`] returning an index means: the index is in range,
/// names the sought program, and nothing before it does.
pub proof fn lemma_spec_find_some(ps: Seq<ProgramV>, name: Seq<char>, i: int)
    requires
        spec_find(ps, name) == Some(i),
    ensures
        0 <= i < ps.len(),
        ps[i].name == name,
        forall|j: int| 0 <= j < i ==> ps[j].name != name,
    decreases ps.len(),
{
    if ps.len() == 0 {
    } else if ps[0].name == name {
    } else {
        let rest = ps.drop_first();
        match spec_find(rest, name) {
            Some(k) => {
                lemma_spec_find_some(rest, name, k);
                assert(forall|j: int| 0 <= j < i ==> ps[j].name != name) by {
                    assert(forall|j: int| 1 <= j < i ==> ps[j].name == rest[j - 1].name);
                }
            },
            None => {},
        }
    }
}

/// What [`spec_find`] returning nothing means: no program carries the name.
pub proof fn lemma_spec_find_none(ps: Seq<ProgramV>, name: Seq<char>)
    requires
        spec_find(ps, name) is None,
    ensures
        forall|j: int| 0 <= j < ps.len() ==> ps[j].name != name,
    decreases ps.len(),
{
    if ps.len() == 0 {
    } else {
        let rest = ps.drop_first();
        lemma_spec_find_none(rest, name);
        assert(forall|j: int| 1 <= j < ps.len() ==> ps[j].name == rest[j - 1].name);
    }
}

/// The converse: a first match at `i` pins [`spec_find`] to `Some(i)`.
pub proof fn lemma_spec_find_complete(ps: Seq<ProgramV>, name: Seq<char>, i: int)
    requires
        0 <= i < ps.len(),
        ps[i].name == name,
        forall|j: int| 0 <= j < i ==> ps[j].name != name,
    ensures
        spec_find(ps, name) == Some(i),
    decreases ps.len(),
{
    if ps[0].name == name {
        assert(i == 0);
    } else {
        let rest = ps.drop_first();
        assert(rest[i - 1].name == name);
        assert(forall|j: int| 0 <= j < i - 1 ==> rest[j].name == ps[j + 1].name);
        lemma_spec_find_complete(rest, name, i - 1);
    }
}

impl Config {
    /// A registry holding copies of the given programs, in their order.
    pub fn new(programs: &Vec<Program>) -> (r: Self)
        ensures
            r@.programs == programs.deep_view(),
    {
        let mut copied: Vec<Program> = Vec::new();
        let mut i: usize = 0;
        while i < programs.len()
            invariant
                i <= programs.len(),
                copied@.len() == i,
                forall|k: int| 0 <= k < i ==> copied@[k]@ == programs@[k]@,
            decreases programs.len() - i,
        {
            let p = programs[i].clone();
            copied.push(p);
            i = i + 1;
        }
        proof {
            assert(copied.deep_view() =~= programs.deep_view());
        }
        Config { programs: copied }
    }

    /// The first program named `name`, together with its index.
    pub fn find(&self, name: &str) -> (r: Option<(Program, usize)>)
        ensures
            match spec_find(self@.programs, name@) {
                Some(i) => r matches Some((p, idx)) && idx == i && p@ == self@.programs[i],
                None => r is None,
            },
    {
        let mut i: usize = 0;
        while i < self.programs.len()
            invariant
                i <= self.programs.len(),
                forall|j: int| 0 <= j < i ==> self@.programs[j].name != name@,
            decreases self.programs.len() - i,
        {
            let short = self.programs[i].get_name_short();
            if str_eq(short.as_str(), name) {
                proof {
                    lemma_spec_find_complete(self@.programs, name@, i as int);
                }
                return Some((self.programs[i].clone(), i));
            }
            i = i + 1;
        }
        proof {
            if spec_find(self@.programs, name@) is Some {
                let w = spec_find(self@.programs, name@)->Some_0;
                lemma_spec_find_some(self@.programs, name@, w);
            }
        }
        None
    }

    /// Appends a program, unless one of its name is already registered.
    ///
    /// A duplicate name is refused with `DuplicateProgram` and leaves the
    /// registry exactly as it was; otherwise the program is appended at
    /// the end, preserving insertion order. A registry without duplicate
    /// names stays without them.
    pub fn push(&mut self, program: &Program) -> (r: Result<(), AppError>)
        ensures
            has_program(old(self)@, program@.name) ==> {
                &&& r matches Err(AppError::DuplicateProgram(n)) && n@ == program@.name
                &&& final(self)@ == old(self)@
            },
            !has_program(old(self)@, program@.name) ==> {
                &&& r is Ok
                &&& final(self)@.programs == old(self)@.programs.push(program@)
            },
            wf(old(self)@) ==> wf(final(self)@),
    {
        let short = program.get_name_short();
        match self.find(short.as_str()) {
            Some(_) => Err(AppError::DuplicateProgram(short)),
            None => {
                self.programs.push(program.clone());
                proof {
                    let ps = old(self)@.programs;
                    assert(self@.programs =~= ps.push(program@));
                    if wf(old(self)@) {
                        assert forall|i: int, j: int|
                            0 <= i < j < self@.programs.len() implies self@.programs[i].name
                            != self@.programs[j].name by {
                            if j == ps.len() {
                                lemma_spec_find_none(ps, program@.name);
                            }
                        }
                    }
                }
                Ok(())
            },
        }
    }

    /// Deletes the single program named as `program`.
    ///
    /// An absent name is refused with `ProgramNotFound` and leaves the
    /// registry exactly as it was.
    pub fn remove(&mut self, program: &Program) -> (r: Result<(), AppError>)
        ensures
            match spec_find(old(self)@.programs, program@.name) {
                Some(i) => r is Ok && final(self)@.programs == old(self)@.programs.remove(i),
                None => {
                    &&& r matches Err(AppError::ProgramNotFound(n)) && n@ == program@.name
                    &&& final(self)@ == old(self)@
                },
            },
            wf(old(self)@) ==> wf(final(self)@),
    {
        let short = program.get_name_short();
        match self.find(short.as_str()) {
            Some((_, idx)) => {
                proof {
                    lemma_spec_find_some(self@.programs, program@.name, idx as int);
                }
                self.programs.remove(idx);
                proof {
                    let i = idx as int;
                    let ps = old(self)@.programs;
                    assert(self@.programs =~= ps.remove(i));
                    if wf(old(self)@) {
                        assert forall|a: int, b: int|
                            0 <= a < b < self@.programs.len() implies self@.programs[a].name
                            != self@.programs[b].name by {
                            assert(self@.programs[a] == if a < i {
                                ps[a]
                            } else {
                                ps[a + 1]
                            });
                            assert(self@.programs[b] == if b < i {
                                ps[b]
                            } else {
                                ps[b + 1]
                            });
                        }
                    }
                }
                Ok(())
            },
            None => Err(AppError::ProgramNotFound(short)),
        }
    }

    /// Writes the registry as its canonical JSON document, the exact
    /// text the backing file holds.
    pub fn serialize(&self) -> (r: String)
        ensures
            r@ == crate::json::ser_config(self@),
    {
        crate::json::write_config(self)
    }

    /// Rebuilds a registry from the backing file's contents.
    ///
    /// An absent backing file reads as `None` and yields an empty
    /// registry instead of failing; present contents must be a canonical
    /// document, or the registry is refused with `IOFailure`.
    pub fn deserialize(content: &Option<String>) -> (r: Result<Config, AppError>)
        ensures
            match content {
                None => r matches Ok(c) && c@.programs.len() == 0,
                Some(text) => match crate::json::parse_config(text@) {
                    Some(cv) => r matches Ok(c) && c@ == cv,
                    None => r matches Err(AppError::IOFailure(_)),
                },
            },
    {
        match content {
            None => Ok(Config { programs: Vec::new() }),
            Some(text) => match crate::json::read_config(text.as_str()) {
                Some(c) => Ok(c),
                None => Err(
                    AppError::IOFailure(
                        String::from_str("config file is not in the persisted format"),
                    ),
                ),
            },
        }
    }

    /// Empties the registry.
    pub fn clear(&mut self)
        ensures
            final(self)@.programs.len() == 0,
    {
        self.programs = Vec::new();
    }
}

/// Pushing a program twice under one name cannot succeed twice: once a
/// push has appended a program, the registry holds its name, so a second
/// push of any program with that name answers `DuplicateProgram` and, by
/// the contract of [`Config::push`], leaves the registry unchanged.
pub proof fn lemma_push_then_push_duplicate(before: ConfigV, after: ConfigV, p: ProgramV, q: ProgramV)
    requires
        !has_program(before, p.name),
        after.programs == before.programs.push(p),
        q.name == p.name,
    ensures
        has_program(after, q.name),
{
    let i = before.programs.len() as int;
    assert(after.programs[i].name == q.name);
    if spec_find(after.programs, q.name) is None {
        lemma_spec_find_none(after.programs, q.name);
    }
}

} // verus!
