//! The registry's persisted format: one JSON document holding the
//! program list, written and read by this crate alone.
//!
//! The serializer pins the canonical text of a registry; the parser
//! accepts exactly the canonical documents and answers with the registry
//! they serialize. The round-trip law at the end of the module ties the
//! two together: parsing what a registry serializes to yields that
//! registry.

use vstd::prelude::*;
use crate::config::{Config, ConfigV};
use crate::program::{Feature, Icon, IconV, Program, ProgramV};
use crate::text::{chars_of, push_char};

verus! {

/// How one character is written inside a JSON string: the quote, the
/// backslash and the common control characters take a two-character
/// escape; everything else stands for itself.
pub open spec fn esc_char(c: char) -> Seq<char> {
    if c == '"' {
        seq!['\\', '"']
    } else if c == '\\' {
        seq!['\\', '\\']
    } else if c == '\n' {
        seq!['\\', 'n']
    } else if c == '\r' {
        seq!['\\', 'r']
    } else if c == '\t' {
        seq!['\\', 't']
    } else {
        seq![c]
    }
}

/// A character sequence escaped for a JSON string body.
pub open spec fn escape(s: Seq<char>) -> Seq<char>
    decreases s.len(),
{
    if s.len() == 0 {
        Seq::empty()
    } else {
        esc_char(s[0]) + escape(s.drop_first())
    }
}

/// A JSON string: the escaped body between quotes.
pub open spec fn ser_string(s: Seq<char>) -> Seq<char> {
    seq!['"'] + escape(s) + seq!['"']
}

/// An optional string: `null` when absent.
pub open spec fn ser_opt_string(o: Option<Seq<char>>) -> Seq<char> {
    match o {
        Some(s) => ser_string(s),
        None => "null"@,
    }
}

/// The members of a feature array, comma-separated.
pub open spec fn ser_features_inner(fs: Seq<Feature>) -> Seq<char>
    decreases fs.len(),
{
    if fs.len() == 0 {
        Seq::empty()
    } else if fs.len() == 1 {
        ser_string(fs[0].spec_name())
    } else {
        ser_string(fs[0].spec_name()) + seq![','] + ser_features_inner(fs.drop_first())
    }
}

/// A feature array.
pub open spec fn ser_features(fs: Seq<Feature>) -> Seq<char> {
    seq!['['] + ser_features_inner(fs) + seq![']']
}

/// An optional icon: `null`, or an object holding its path.
pub open spec fn ser_icon(o: Option<IconV>) -> Seq<char> {
    match o {
        Some(icon) => "{\"path\":"@ + ser_string(icon.path) + seq!['}'],
        None => "null"@,
    }
}

/// One program as a JSON object, its members in fixed order.
pub open spec fn ser_program(p: ProgramV) -> Seq<char> {
    "{\"name\":"@ + ser_string(p.name) + ",\"path\":"@ + ser_string(p.path) + ",\"settings\":"@
        + ser_features(p.settings) + ",\"icon\":"@ + ser_icon(p.icon) + ",\"command\":"@
        + ser_string(p.command) + ",\"deps\":"@ + ser_opt_string(p.deps) + seq!['}']
}

/// The members of the program array, comma-separated.
pub open spec fn ser_programs_inner(ps: Seq<ProgramV>) -> Seq<char>
    decreases ps.len(),
{
    if ps.len() == 0 {
        Seq::empty()
    } else if ps.len() == 1 {
        ser_program(ps[0])
    } else {
        ser_program(ps[0]) + seq![','] + ser_programs_inner(ps.drop_first())
    }
}

/// A whole registry as one JSON document.
pub open spec fn ser_config(c: ConfigV) -> Seq<char> {
    "{\"programs\":["@ + ser_programs_inner(c.programs) + "]}"@
}

/// Escaping one more character appends its escape.
proof fn lemma_escape_push(a: Seq<char>, c: char)
    ensures
        escape(a.push(c)) == escape(a) + esc_char(c),
    decreases a.len(),
{
    if a.len() == 0 {
        assert(a.push(c).drop_first() =~= Seq::<char>::empty());
        assert(a.push(c)[0] == c);
        assert(escape(a.push(c)) == esc_char(c) + escape(Seq::<char>::empty()));
        assert(escape(Seq::<char>::empty()) == Seq::<char>::empty());
        assert(escape(a) == Seq::<char>::empty());
        assert(esc_char(c) + Seq::<char>::empty() =~= Seq::<char>::empty() + esc_char(c));
    } else {
        assert(a.push(c).drop_first() =~= a.drop_first().push(c));
        lemma_escape_push(a.drop_first(), c);
        assert(escape(a.push(c)) == esc_char(a[0]) + (escape(a.drop_first()) + esc_char(c)));
        assert(esc_char(a[0]) + (escape(a.drop_first()) + esc_char(c)) =~= (esc_char(a[0])
            + escape(a.drop_first())) + esc_char(c));
    }
}

/// One more member extends the feature array's comma-separated inside.
proof fn lemma_ser_features_inner_push(fs: Seq<Feature>, f: Feature)
    ensures
        ser_features_inner(fs.push(f)) == if fs.len() == 0 {
            ser_string(f.spec_name())
        } else {
            ser_features_inner(fs) + seq![','] + ser_string(f.spec_name())
        },
    decreases fs.len(),
{
    let whole = fs.push(f);
    if fs.len() == 0 {
        assert(whole.len() == 1);
        assert(whole[0] == f);
    } else {
        assert(whole[0] == fs[0]);
        assert(whole.drop_first() =~= fs.drop_first().push(f));
        lemma_ser_features_inner_push(fs.drop_first(), f);
        if fs.len() == 1 {
            assert(ser_features_inner(whole) == ser_string(fs[0].spec_name()) + seq![',']
                + ser_string(f.spec_name()));
        } else {
            assert(ser_features_inner(whole) == ser_string(fs[0].spec_name()) + seq![','] + (
            ser_features_inner(fs.drop_first()) + seq![','] + ser_string(f.spec_name())));
            assert(ser_string(fs[0].spec_name()) + seq![','] + (ser_features_inner(fs.drop_first())
                + seq![','] + ser_string(f.spec_name())) =~= (ser_string(fs[0].spec_name())
                + seq![','] + ser_features_inner(fs.drop_first())) + seq![','] + ser_string(
                f.spec_name(),
            ));
        }
    }
}

/// One more member extends the program array's comma-separated inside.
proof fn lemma_ser_programs_inner_push(ps: Seq<ProgramV>, p: ProgramV)
    ensures
        ser_programs_inner(ps.push(p)) == if ps.len() == 0 {
            ser_program(p)
        } else {
            ser_programs_inner(ps) + seq![','] + ser_program(p)
        },
    decreases ps.len(),
{
    let whole = ps.push(p);
    if ps.len() == 0 {
        assert(whole.len() == 1);
        assert(whole[0] == p);
    } else {
        assert(whole[0] == ps[0]);
        assert(whole.drop_first() =~= ps.drop_first().push(p));
        lemma_ser_programs_inner_push(ps.drop_first(), p);
        if ps.len() == 1 {
            assert(ser_programs_inner(whole) == ser_program(ps[0]) + seq![','] + ser_program(p));
        } else {
            assert(ser_programs_inner(whole) == ser_program(ps[0]) + seq![','] + (
            ser_programs_inner(ps.drop_first()) + seq![','] + ser_program(p)));
            assert(ser_program(ps[0]) + seq![','] + (ser_programs_inner(ps.drop_first())
                + seq![','] + ser_program(p)) =~= (ser_program(ps[0]) + seq![',']
                + ser_programs_inner(ps.drop_first())) + seq![','] + ser_program(p));
        }
    }
}

/// Appends the escaped body of `s` to `out`.
fn append_escaped(out: &mut String, s: &str)
    ensures
        final(out)@ == old(out)@ + escape(s@),
{
    let len = s.unicode_len();
    proof {
        assert(old(out)@ + escape(s@.subrange(0, 0)) =~= old(out)@);
    }
    let mut k: usize = 0;
    while k < len
        invariant
            k <= len,
            len == s@.len(),
            out@ == old(out)@ + escape(s@.subrange(0, k as int)),
        decreases len - k,
    {
        let c = s.get_char(k);
        if c == '"' {
            push_char(out, '\\');
            push_char(out, '"');
        } else if c == '\\' {
            push_char(out, '\\');
            push_char(out, '\\');
        } else if c == '\n' {
            push_char(out, '\\');
            push_char(out, 'n');
        } else if c == '\r' {
            push_char(out, '\\');
            push_char(out, 'r');
        } else if c == '\t' {
            push_char(out, '\\');
            push_char(out, 't');
        } else {
            push_char(out, c);
        }
        k = k + 1;
        proof {
            let pre = s@.subrange(0, k as int - 1);
            lemma_escape_push(pre, s@[k as int - 1]);
            assert(s@.subrange(0, k as int) =~= pre.push(s@[k as int - 1]));
            assert(out@ =~= old(out)@ + escape(s@.subrange(0, k as int)));
        }
    }
    proof {
        assert(s@.subrange(0, len as int) =~= s@);
    }
}

/// Appends `s` as a quoted, escaped JSON string.
fn append_json_string(out: &mut String, s: &str)
    ensures
        final(out)@ == old(out)@ + ser_string(s@),
{
    push_char(out, '"');
    append_escaped(out, s);
    push_char(out, '"');
    proof {
        assert(out@ =~= old(out)@ + ser_string(s@));
    }
}

/// Appends the feature array.
fn append_features(out: &mut String, fs: &Vec<Feature>)
    ensures
        final(out)@ == old(out)@ + ser_features(fs@),
{
    push_char(out, '[');
    let mut k: usize = 0;
    proof {
        assert(ser_features_inner(fs@.subrange(0, 0)) =~= Seq::<char>::empty());
        assert(out@ =~= old(out)@ + seq!['['] + ser_features_inner(fs@.subrange(0, 0)));
    }
    while k < fs.len()
        invariant
            k <= fs@.len(),
            out@ == old(out)@ + seq!['['] + ser_features_inner(fs@.subrange(0, k as int)),
        decreases fs@.len() - k,
    {
        if k > 0 {
            push_char(out, ',');
        }
        append_json_string(out, fs[k].name());
        k = k + 1;
        proof {
            let pre = fs@.subrange(0, k as int - 1);
            lemma_ser_features_inner_push(pre, fs@[k as int - 1]);
            assert(fs@.subrange(0, k as int) =~= pre.push(fs@[k as int - 1]));
            assert(out@ =~= old(out)@ + seq!['['] + ser_features_inner(fs@.subrange(0, k as int)));
        }
    }
    push_char(out, ']');
    proof {
        assert(fs@.subrange(0, k as int) =~= fs@);
        assert(out@ =~= old(out)@ + ser_features(fs@));
    }
}

/// Appends the icon member: `null` or the object holding its path.
fn append_icon(out: &mut String, icon: &Option<Icon>)
    ensures
        final(out)@ == old(out)@ + ser_icon(icon.deep_view()),
{
    match icon {
        Some(i) => {
            out.append("{\"path\":");
            append_json_string(out, i.path.as_str());
            push_char(out, '}');
            proof {
                assert(out@ =~= old(out)@ + ser_icon(icon.deep_view()));
            }
        },
        None => {
            out.append("null");
        },
    }
}

/// Appends an optional string member: `null` when absent.
fn append_opt_string(out: &mut String, o: &Option<String>)
    ensures
        final(out)@ == old(out)@ + ser_opt_string(o.deep_view()),
{
    match o {
        Some(s) => {
            append_json_string(out, s.as_str());
        },
        None => {
            out.append("null");
        },
    }
}

/// Appends one program object.
#[verifier::rlimit(60)]
fn append_program(out: &mut String, p: &Program)
    ensures
        final(out)@ == old(out)@ + ser_program(p@),
{
    out.append("{\"name\":");
    append_json_string(out, p.name.as_str());
    out.append(",\"path\":");
    append_json_string(out, p.path.as_str());
    out.append(",\"settings\":");
    append_features(out, &p.settings);
    out.append(",\"icon\":");
    append_icon(out, &p.icon);
    out.append(",\"command\":");
    append_json_string(out, p.command.as_str());
    out.append(",\"deps\":");
    append_opt_string(out, &p.deps);
    push_char(out, '}');
    proof {
        assert(out@ =~= old(out)@ + ser_program(p@));
    }
}

/// Writes a whole registry as its canonical JSON document.
pub fn write_config(c: &Config) -> (r: String)
    ensures
        r@ == ser_config(c@),
{
    let mut out = String::new();
    out.append("{\"programs\":[");
    let mut k: usize = 0;
    proof {
        assert(ser_programs_inner(c@.programs.subrange(0, 0)) =~= Seq::<char>::empty());
        assert(out@ =~= "{\"programs\":["@ + ser_programs_inner(c@.programs.subrange(0, 0)));
    }
    while k < c.programs.len()
        invariant
            k <= c@.programs.len(),
            c@.programs.len() == c.programs@.len(),
            out@ == "{\"programs\":["@ + ser_programs_inner(c@.programs.subrange(0, k as int)),
        decreases c@.programs.len() - k,
    {
        if k > 0 {
            push_char(&mut out, ',');
        }
        append_program(&mut out, &c.programs[k]);
        k = k + 1;
        proof {
            let pre = c@.programs.subrange(0, k as int - 1);
            lemma_ser_programs_inner_push(pre, c@.programs[k as int - 1]);
            assert(c@.programs.subrange(0, k as int) =~= pre.push(c@.programs[k as int - 1]));
            assert(out@ =~= "{\"programs\":["@ + ser_programs_inner(
                c@.programs.subrange(0, k as int),
            ));
        }
    }
    out.append("]}");
    proof {
        assert(c@.programs.subrange(0, k as int) =~= c@.programs);
        assert(out@ =~= ser_config(c@));
    }
    out
}

/// Whether `lit` stands in `s` at position `i`.
pub open spec fn starts_with(s: Seq<char>, i: int, lit: Seq<char>) -> bool {
    0 <= i && i + lit.len() <= s.len() && s.subrange(i, i + lit.len()) == lit
}

/// The escape codes the format knows, …
pub open spec fn is_escape_code(e: char) -> bool {
    e == '"' || e == '\\' || e == 'n' || e == 'r' || e == 't'
}

/// … and the character each stands for.
pub open spec fn unesc(e: char) -> char {
    if e == 'n' {
        '\n'
    } else if e == 'r' {
        '\r'
    } else if e == 't' {
        '\t'
    } else {
        e
    }
}

/// Reads a string body from `i` up to and over its closing quote:
/// the decoded characters and the position after the quote. Characters
/// stand for themselves, except that a backslash must be followed by a
/// known escape code; an unterminated or ill-escaped body reads as
/// nothing.
pub open spec fn parse_str_body(s: Seq<char>, i: int) -> Option<(Seq<char>, int)>
    decreases s.len() - i,
{
    if i < 0 || i >= s.len() {
        None
    } else if s[i] == '"' {
        Some((Seq::empty(), i + 1))
    } else if s[i] == '\\' {
        if i + 1 < s.len() && is_escape_code(s[i + 1]) {
            match parse_str_body(s, i + 2) {
                Some((t, j)) => Some((seq![unesc(s[i + 1])] + t, j)),
                None => None,
            }
        } else {
            None
        }
    } else {
        match parse_str_body(s, i + 1) {
            Some((t, j)) => Some((seq![s[i]] + t, j)),
            None => None,
        }
    }
}

/// Reads a quoted string at `i`.
pub open spec fn parse_string(s: Seq<char>, i: int) -> Option<(Seq<char>, int)> {
    if 0 <= i && i < s.len() && s[i] == '"' {
        parse_str_body(s, i + 1)
    } else {
        None
    }
}

/// A successful string-body read ends after `i` and inside the text.
proof fn lemma_str_body_advance(s: Seq<char>, i: int)
    ensures
        parse_str_body(s, i) matches Some(r) ==> i < r.1 <= s.len(),
    decreases s.len() - i,
{
    if 0 <= i && i < s.len() {
        if s[i] == '"' {
        } else if s[i] == '\\' {
            if i + 1 < s.len() && is_escape_code(s[i + 1]) {
                lemma_str_body_advance(s, i + 2);
            }
        } else {
            lemma_str_body_advance(s, i + 1);
        }
    }
}

/// A successful string read ends after its opening quote.
proof fn lemma_string_advance(s: Seq<char>, i: int)
    ensures
        parse_string(s, i) matches Some(r) ==> i + 1 < r.1 <= s.len(),
{
    lemma_str_body_advance(s, i + 1);
}

/// The feature a persisted name denotes.
pub open spec fn feature_of_name(n: Seq<char>) -> Option<Feature> {
    if n == "Display"@ {
        Some(Feature::Display)
    } else if n == "Sound"@ {
        Some(Feature::Sound)
    } else if n == "Notification"@ {
        Some(Feature::Notification)
    } else if n == "Webcam"@ {
        Some(Feature::Webcam)
    } else if n == "Printer"@ {
        Some(Feature::Printer)
    } else if n == "HomePersistent"@ {
        Some(Feature::HomePersistent)
    } else if n == "Time"@ {
        Some(Feature::Time)
    } else if n == "Devices"@ {
        Some(Feature::Devices)
    } else {
        None
    }
}

/// Every feature's persisted name denotes that feature again.
proof fn lemma_feature_name_roundtrip(f: Feature)
    ensures
        feature_of_name(f.spec_name()) == Some(f),
{
    reveal_strlit("Display");
    reveal_strlit("Sound");
    reveal_strlit("Notification");
    reveal_strlit("Webcam");
    reveal_strlit("Printer");
    reveal_strlit("HomePersistent");
    reveal_strlit("Time");
    reveal_strlit("Devices");
    assert("Display"@.len() == 7);
    assert("Sound"@.len() == 5);
    assert("Notification"@.len() == 12);
    assert("Webcam"@.len() == 6);
    assert("Printer"@.len() == 7);
    assert("HomePersistent"@.len() == 14);
    assert("Time"@.len() == 4);
    assert("Devices"@.len() == 7);
    assert("Display"@[0] == 'D' && "Display"@[1] == 'i');
    assert("Printer"@[0] == 'P' && "Printer"@[1] == 'r');
    assert("Devices"@[0] == 'D' && "Devices"@[1] == 'e');
    match f {
        Feature::Display => assert(feature_of_name("Display"@) == Some(Feature::Display)),
        Feature::Sound => assert(feature_of_name("Sound"@) == Some(Feature::Sound)),
        Feature::Notification => assert(feature_of_name("Notification"@) == Some(
            Feature::Notification,
        )),
        Feature::Webcam => assert(feature_of_name("Webcam"@) == Some(Feature::Webcam)),
        Feature::Printer => assert(feature_of_name("Printer"@) == Some(Feature::Printer)),
        Feature::HomePersistent => assert(feature_of_name("HomePersistent"@) == Some(
            Feature::HomePersistent,
        )),
        Feature::Time => assert(feature_of_name("Time"@) == Some(Feature::Time)),
        Feature::Devices => assert(feature_of_name("Devices"@) == Some(Feature::Devices)),
    }
}

/// Reads the members of a feature array from `i`, over the closing
/// bracket: at least one persisted feature name, comma-separated.
pub open spec fn parse_features_items(s: Seq<char>, i: int) -> Option<(Seq<Feature>, int)>
    decreases s.len() - i,
    via parse_features_items_dec
{
    match parse_string(s, i) {
        Some((n, j)) => match feature_of_name(n) {
            Some(f) => {
                if j < s.len() && s[j] == ',' {
                    match parse_features_items(s, j + 1) {
                        Some((fs, k)) => Some((seq![f] + fs, k)),
                        None => None,
                    }
                } else if j < s.len() && s[j] == ']' {
                    Some((seq![f], j + 1))
                } else {
                    None
                }
            },
            None => None,
        },
        None => None,
    }
}

#[via_fn]
proof fn parse_features_items_dec(s: Seq<char>, i: int) {
    lemma_string_advance(s, i);
}

/// Reads a feature array at `i`.
pub open spec fn parse_features(s: Seq<char>, i: int) -> Option<(Seq<Feature>, int)> {
    if 0 <= i && i < s.len() && s[i] == '[' {
        if i + 1 < s.len() && s[i + 1] == ']' {
            Some((Seq::empty(), i + 2))
        } else {
            parse_features_items(s, i + 1)
        }
    } else {
        None
    }
}

/// A successful feature-items read ends after `i` and inside the text.
proof fn lemma_features_items_advance(s: Seq<char>, i: int)
    ensures
        parse_features_items(s, i) matches Some(r) ==> i < r.1 <= s.len(),
    decreases s.len() - i,
{
    lemma_string_advance(s, i);
    match parse_string(s, i) {
        Some((n, j)) => {
            if feature_of_name(n) is Some && j < s.len() && s[j] == ',' {
                lemma_features_items_advance(s, j + 1);
            }
        },
        None => {},
    }
}

/// A successful feature-array read ends after `i` and inside the text.
proof fn lemma_features_advance(s: Seq<char>, i: int)
    ensures
        parse_features(s, i) matches Some(r) ==> i < r.1 <= s.len(),
{
    if 0 <= i {
        lemma_features_items_advance(s, i + 1);
    }
}

/// Reads the icon member at `i`: `null` or an object holding the path.
pub open spec fn parse_icon(s: Seq<char>, i: int) -> Option<(Option<IconV>, int)> {
    if starts_with(s, i, "null"@) {
        Some((None, i + "null"@.len()))
    } else if starts_with(s, i, "{\"path\":"@) {
        match parse_string(s, i + "{\"path\":"@.len()) {
            Some((p, j)) => if j < s.len() && s[j] == '}' {
                Some((Some(IconV { path: p }), j + 1))
            } else {
                None
            },
            None => None,
        }
    } else {
        None
    }
}

/// Reads an optional string member at `i`: `null` or a quoted string.
pub open spec fn parse_opt_string(s: Seq<char>, i: int) -> Option<(Option<Seq<char>>, int)> {
    if starts_with(s, i, "null"@) {
        Some((None, i + "null"@.len()))
    } else {
        match parse_string(s, i) {
            Some((t, j)) => Some((Some(t), j)),
            None => None,
        }
    }
}

/// Reads one program object at `i`: its members in the fixed order the
/// serializer writes them.
pub open spec fn parse_program(s: Seq<char>, i: int) -> Option<(ProgramV, int)> {
    if !starts_with(s, i, "{\"name\":"@) {
        None
    } else {
        match parse_string(s, i + "{\"name\":"@.len()) {
            Some((name, j1)) => if !starts_with(s, j1, ",\"path\":"@) {
                None
            } else {
                match parse_string(s, j1 + ",\"path\":"@.len()) {
                    Some((path, j2)) => if !starts_with(s, j2, ",\"settings\":"@) {
                        None
                    } else {
                        match parse_features(s, j2 + ",\"settings\":"@.len()) {
                            Some((settings, j3)) => if !starts_with(s, j3, ",\"icon\":"@) {
                                None
                            } else {
                                match parse_icon(s, j3 + ",\"icon\":"@.len()) {
                                    Some((icon, j4)) => if !starts_with(s, j4, ",\"command\":"@) {
                                        None
                                    } else {
                                        match parse_string(s, j4 + ",\"command\":"@.len()) {
                                            Some((command, j5)) => if !starts_with(
                                                s,
                                                j5,
                                                ",\"deps\":"@,
                                            ) {
                                                None
                                            } else {
                                                match parse_opt_string(
                                                    s,
                                                    j5 + ",\"deps\":"@.len(),
                                                ) {
                                                    Some((deps, j6)) => if j6 < s.len() && s[j6]
                                                        == '}' {
                                                        Some(
                                                            (
                                                                ProgramV {
                                                                    name,
                                                                    path,
                                                                    settings,
                                                                    icon,
                                                                    command,
                                                                    deps,
                                                                },
                                                                j6 + 1,
                                                            ),
                                                        )
                                                    } else {
                                                        None
                                                    },
                                                    None => None,
                                                }
                                            },
                                            None => None,
                                        }
                                    },
                                    None => None,
                                }
                            },
                            None => None,
                        }
                    },
                    None => None,
                }
            },
            None => None,
        }
    }
}

/// A successful icon read ends after `i` and inside the text.
proof fn lemma_icon_advance(s: Seq<char>, i: int)
    ensures
        parse_icon(s, i) matches Some(r) ==> i < r.1 <= s.len(),
{
    reveal_strlit("null");
    reveal_strlit("{\"path\":");
    lemma_string_advance(s, i + "{\"path\":"@.len());
}

/// A successful optional-string read ends after `i` and inside the text.
proof fn lemma_opt_string_advance(s: Seq<char>, i: int)
    ensures
        parse_opt_string(s, i) matches Some(r) ==> i < r.1 <= s.len(),
{
    reveal_strlit("null");
    lemma_string_advance(s, i);
}

/// A successful program read ends after `i` and inside the text.
proof fn lemma_program_advance(s: Seq<char>, i: int)
    ensures
        parse_program(s, i) matches Some(r) ==> i < r.1 <= s.len(),
{
    if starts_with(s, i, "{\"name\":"@) {
        let p1 = i + "{\"name\":"@.len();
        lemma_string_advance(s, p1);
        match parse_string(s, p1) {
            Some((_, j1)) => {
                let p2 = j1 + ",\"path\":"@.len();
                lemma_string_advance(s, p2);
                match parse_string(s, p2) {
                    Some((_, j2)) => {
                        let p3 = j2 + ",\"settings\":"@.len();
                        lemma_features_advance(s, p3);
                        match parse_features(s, p3) {
                            Some((_, j3)) => {
                                let p4 = j3 + ",\"icon\":"@.len();
                                lemma_icon_advance(s, p4);
                                match parse_icon(s, p4) {
                                    Some((_, j4)) => {
                                        let p5 = j4 + ",\"command\":"@.len();
                                        lemma_string_advance(s, p5);
                                        match parse_string(s, p5) {
                                            Some((_, j5)) => {
                                                let p6 = j5 + ",\"deps\":"@.len();
                                                lemma_opt_string_advance(s, p6);
                                            },
                                            None => {},
                                        }
                                    },
                                    None => {},
                                }
                            },
                            None => {},
                        }
                    },
                    None => {},
                }
            },
            None => {},
        }
    }
}

/// Reads the members of the program array from `i`, over the closing
/// bracket: at least one program object, comma-separated.
pub open spec fn parse_programs_items(s: Seq<char>, i: int) -> Option<(Seq<ProgramV>, int)>
    decreases s.len() - i,
    via parse_programs_items_dec
{
    match parse_program(s, i) {
        Some((p, j)) => {
            if j < s.len() && s[j] == ',' {
                match parse_programs_items(s, j + 1) {
                    Some((ps, k)) => Some((seq![p] + ps, k)),
                    None => None,
                }
            } else if j < s.len() && s[j] == ']' {
                Some((seq![p], j + 1))
            } else {
                None
            }
        },
        None => None,
    }
}

#[via_fn]
proof fn parse_programs_items_dec(s: Seq<char>, i: int) {
    lemma_program_advance(s, i);
}

/// Reads a whole registry document: the program array between the fixed
/// frame, with nothing after it.
pub open spec fn parse_config(s: Seq<char>) -> Option<ConfigV> {
    if !starts_with(s, 0, "{\"programs\":["@) {
        None
    } else {
        let j = "{\"programs\":["@.len() as int;
        if starts_with(s, j, "]}"@) && j + "]}"@.len() == s.len() {
            Some(ConfigV { programs: Seq::empty() })
        } else {
            match parse_programs_items(s, j) {
                Some((ps, k)) => if k + 1 == s.len() && k < s.len() && s[k] == '}' {
                    Some(ConfigV { programs: ps })
                } else {
                    None
                },
                None => None,
            }
        }
    }
}

/// A subrange that holds a concatenation splits at the seam.
proof fn lemma_split_at(s: Seq<char>, i: int, a: Seq<char>, b: Seq<char>)
    requires
        0 <= i,
        i + a.len() + b.len() <= s.len(),
        s.subrange(i, i + a.len() + b.len()) == a + b,
    ensures
        s.subrange(i, i + a.len()) == a,
        s.subrange(i + a.len(), i + a.len() + b.len()) == b,
{
    assert(s.subrange(i, i + a.len()) =~= a);
    assert(forall|k: int| 0 <= k < b.len() ==> #[trigger] s.subrange(
        i + a.len(),
        i + a.len() + b.len(),
    )[k] == s.subrange(i, i + a.len() + b.len())[a.len() + k]);
    assert(s.subrange(i + a.len(), i + a.len() + b.len()) =~= b);
}

/// Reading an escaped body up to its closing quote recovers the
/// characters that were escaped.
proof fn lemma_parse_str_body(x: Seq<char>, s: Seq<char>, i: int)
    requires
        0 <= i,
        i + escape(x).len() + 1 <= s.len(),
        s.subrange(i, i + escape(x).len()) == escape(x),
        s[i + escape(x).len()] == '"',
    ensures
        parse_str_body(s, i) == Some((x, i + escape(x).len() + 1)),
    decreases x.len(),
{
    if x.len() == 0 {
        assert(escape(x).len() == 0);
        assert(x =~= Seq::<char>::empty());
    } else {
        let c = x[0];
        let e = esc_char(c);
        let rest = x.drop_first();
        assert(escape(x) == e + escape(rest));
        lemma_split_at(s, i, e, escape(rest));
        assert(s[i] == s.subrange(i, i + e.len() as int)[0]);
        if c == '"' || c == '\\' || c == '\n' || c == '\r' || c == '\t' {
            assert(e.len() == 2);
            assert(s[i] == '\\');
            assert(s[i + 1] == e[1]) by {
                assert(s[i + 1] == s.subrange(i, i + e.len() as int)[1]);
            }
            assert(is_escape_code(e[1]));
            assert(unesc(e[1]) == c);
            lemma_parse_str_body(rest, s, i + 2);
            assert(seq![c] + rest =~= x);
        } else {
            assert(e.len() == 1);
            assert(s[i] == c);
            lemma_parse_str_body(rest, s, i + 1);
            assert(seq![c] + rest =~= x);
        }
    }
}

/// Reading a serialized string recovers the string.
proof fn lemma_parse_ser_string(x: Seq<char>, s: Seq<char>, i: int)
    requires
        0 <= i,
        i + ser_string(x).len() <= s.len(),
        s.subrange(i, i + ser_string(x).len()) == ser_string(x),
    ensures
        parse_string(s, i) == Some((x, i + ser_string(x).len())),
{
    assert(ser_string(x).len() == escape(x).len() + 2);
    assert(s[i] == '"') by {
        assert(s[i] == s.subrange(i, i + ser_string(x).len() as int)[0]);
    }
    assert(s.subrange(i + 1, i + 1 + escape(x).len()) =~= escape(x)) by {
        assert(forall|k: int| 0 <= k < escape(x).len() ==> #[trigger] s.subrange(
            i + 1,
            i + 1 + escape(x).len(),
        )[k] == s.subrange(i, i + ser_string(x).len() as int)[k + 1]);
    }
    assert(s[i + 1 + escape(x).len()] == '"') by {
        assert(s[i + 1 + escape(x).len()] == s.subrange(i, i + ser_string(x).len() as int)[
        escape(x).len() as int + 1]);
    }
    lemma_parse_str_body(x, s, i + 1);
}

/// Reading serialized feature-array members up to the closing bracket
/// recovers the feature list.
proof fn lemma_parse_ser_features_items(fs: Seq<Feature>, s: Seq<char>, i: int)
    requires
        fs.len() > 0,
        0 <= i,
        i + ser_features_inner(fs).len() + 1 <= s.len(),
        s.subrange(i, i + ser_features_inner(fs).len()) == ser_features_inner(fs),
        s[i + ser_features_inner(fs).len()] == ']',
    ensures
        parse_features_items(s, i) == Some((fs, i + ser_features_inner(fs).len() + 1)),
    decreases fs.len(),
{
    let f = fs[0];
    let item = ser_string(f.spec_name());
    lemma_feature_name_roundtrip(f);
    if fs.len() == 1 {
        assert(ser_features_inner(fs) == item);
        lemma_parse_ser_string(f.spec_name(), s, i);
        assert(seq![f] =~= fs);
    } else {
        let rest = fs.drop_first();
        let t1 = seq![','] + ser_features_inner(rest);
        assert(ser_features_inner(fs) =~= item + t1);
        lemma_split_at(s, i, item, t1);
        lemma_parse_ser_string(f.spec_name(), s, i);
        let j = i + item.len() as int;
        lemma_split_at(s, j, seq![','], ser_features_inner(rest));
        assert(s[j] == ',') by {
            assert(s[j] == s.subrange(j, j + 1)[0]);
        }
        lemma_parse_ser_features_items(rest, s, j + 1);
        assert(seq![f] + rest =~= fs);
    }
}

/// Reading a serialized feature array recovers the feature list.
proof fn lemma_parse_ser_features(fs: Seq<Feature>, s: Seq<char>, i: int)
    requires
        0 <= i,
        i + ser_features(fs).len() <= s.len(),
        s.subrange(i, i + ser_features(fs).len()) == ser_features(fs),
    ensures
        parse_features(s, i) == Some((fs, i + ser_features(fs).len())),
{
    let inner = ser_features_inner(fs);
    let whole = s.subrange(i, i + ser_features(fs).len() as int);
    assert(s[i] == '[') by {
        assert(s[i] == whole[0]);
    }
    if fs.len() == 0 {
        assert(inner.len() == 0);
        assert(s[i + 1] == ']') by {
            assert(s[i + 1] == whole[1]);
        }
        assert(Seq::<Feature>::empty() =~= fs);
    } else {
        assert(inner[0] == ser_string(fs[0].spec_name())[0]) by {
            if fs.len() == 1 {
            } else {
                assert(inner == ser_string(fs[0].spec_name()) + seq![',']
                    + ser_features_inner(fs.drop_first()));
            }
        }
        assert(inner[0] == '"');
        assert(s[i + 1] == inner[0]) by {
            assert(s[i + 1] == whole[1]);
        }
        assert(s.subrange(i + 1, i + 1 + inner.len()) =~= inner) by {
            assert(forall|k: int| 0 <= k < inner.len() ==> #[trigger] s.subrange(
                i + 1,
                i + 1 + inner.len(),
            )[k] == whole[k + 1]);
        }
        assert(s[i + 1 + inner.len()] == ']') by {
            assert(s[i + 1 + inner.len()] == whole[inner.len() as int + 1]);
        }
        lemma_parse_ser_features_items(fs, s, i + 1);
    }
}

/// Reading a serialized icon member recovers it.
proof fn lemma_parse_ser_icon(icon: Option<IconV>, s: Seq<char>, i: int)
    requires
        0 <= i,
        i + ser_icon(icon).len() <= s.len(),
        s.subrange(i, i + ser_icon(icon).len()) == ser_icon(icon),
    ensures
        parse_icon(s, i) == Some((icon, i + ser_icon(icon).len())),
{
    reveal_strlit("null");
    reveal_strlit("{\"path\":");
    match icon {
        None => {
            assert(starts_with(s, i, "null"@));
        },
        Some(ic) => {
            let h = "{\"path\":"@;
            let body = ser_string(ic.path);
            let t1 = body + seq!['}'];
            assert(ser_icon(icon) =~= h + t1);
            lemma_split_at(s, i, h, t1);
            assert(starts_with(s, i, h));
            assert(s[i] == '{') by {
                assert(s[i] == s.subrange(i, i + h.len() as int)[0]);
                assert(h[0] == '{');
            }
            assert(!starts_with(s, i, "null"@)) by {
                assert("null"@[0] == 'n');
                if starts_with(s, i, "null"@) {
                    assert(s[i] == s.subrange(i, i + "null"@.len() as int)[0]);
                }
            }
            let j0 = i + h.len() as int;
            lemma_split_at(s, j0, body, seq!['}']);
            lemma_parse_ser_string(ic.path, s, j0);
            let j = j0 + body.len() as int;
            assert(s[j] == '}') by {
                assert(s[j] == s.subrange(j, j + 1)[0]);
            }
            assert(IconV { path: ic.path } =~= ic);
        },
    }
}

/// Reading a serialized optional string member recovers it.
proof fn lemma_parse_ser_opt_string(o: Option<Seq<char>>, s: Seq<char>, i: int)
    requires
        0 <= i,
        i + ser_opt_string(o).len() <= s.len(),
        s.subrange(i, i + ser_opt_string(o).len()) == ser_opt_string(o),
    ensures
        parse_opt_string(s, i) == Some((o, i + ser_opt_string(o).len())),
{
    reveal_strlit("null");
    match o {
        None => {
            assert(starts_with(s, i, "null"@));
        },
        Some(x) => {
            assert(s[i] == '"') by {
                assert(s[i] == s.subrange(i, i + ser_string(x).len() as int)[0]);
            }
            assert(!starts_with(s, i, "null"@)) by {
                assert("null"@[0] == 'n');
                if starts_with(s, i, "null"@) {
                    assert(s[i] == s.subrange(i, i + "null"@.len() as int)[0]);
                }
            }
            lemma_parse_ser_string(x, s, i);
        },
    }
}

/// Reading a serialized program object recovers the program.
#[verifier::rlimit(100)]
proof fn lemma_parse_ser_program(p: ProgramV, s: Seq<char>, i: int)
    requires
        0 <= i,
        i + ser_program(p).len() <= s.len(),
        s.subrange(i, i + ser_program(p).len()) == ser_program(p),
    ensures
        parse_program(s, i) == Some((p, i + ser_program(p).len())),
{
    let a1 = "{\"name\":"@;
    let b1 = ser_string(p.name);
    let a2 = ",\"path\":"@;
    let b2 = ser_string(p.path);
    let a3 = ",\"settings\":"@;
    let b3 = ser_features(p.settings);
    let a4 = ",\"icon\":"@;
    let b4 = ser_icon(p.icon);
    let a5 = ",\"command\":"@;
    let b5 = ser_string(p.command);
    let a6 = ",\"deps\":"@;
    let b6 = ser_opt_string(p.deps);
    let a7 = seq!['}'];
    let r12 = b6 + a7;
    let r11 = a6 + r12;
    let r10 = b5 + r11;
    let r9 = a5 + r10;
    let r8 = b4 + r9;
    let r7 = a4 + r8;
    let r6 = b3 + r7;
    let r5 = a3 + r6;
    let r4 = b2 + r5;
    let r3 = a2 + r4;
    let r2 = b1 + r3;
    assert(ser_program(p) =~= a1 + r2);
    lemma_split_at(s, i, a1, r2);
    let q1 = i + a1.len() as int;
    assert(r2 =~= b1 + r3);
    lemma_split_at(s, q1, b1, r3);
    let q2 = q1 + b1.len() as int;
    lemma_split_at(s, q2, a2, r4);
    let q3 = q2 + a2.len() as int;
    lemma_split_at(s, q3, b2, r5);
    let q4 = q3 + b2.len() as int;
    lemma_split_at(s, q4, a3, r6);
    let q5 = q4 + a3.len() as int;
    lemma_split_at(s, q5, b3, r7);
    let q6 = q5 + b3.len() as int;
    lemma_split_at(s, q6, a4, r8);
    let q7 = q6 + a4.len() as int;
    lemma_split_at(s, q7, b4, r9);
    let q8 = q7 + b4.len() as int;
    lemma_split_at(s, q8, a5, r10);
    let q9 = q8 + a5.len() as int;
    lemma_split_at(s, q9, b5, r11);
    let q10 = q9 + b5.len() as int;
    lemma_split_at(s, q10, a6, r12);
    let q11 = q10 + a6.len() as int;
    lemma_split_at(s, q11, b6, a7);
    let q12 = q11 + b6.len() as int;
    assert(starts_with(s, i, a1));
    lemma_parse_ser_string(p.name, s, q1);
    assert(starts_with(s, q2, a2));
    lemma_parse_ser_string(p.path, s, q3);
    assert(starts_with(s, q4, a3));
    lemma_parse_ser_features(p.settings, s, q5);
    assert(starts_with(s, q6, a4));
    lemma_parse_ser_icon(p.icon, s, q7);
    assert(starts_with(s, q8, a5));
    lemma_parse_ser_string(p.command, s, q9);
    assert(starts_with(s, q10, a6));
    lemma_parse_ser_opt_string(p.deps, s, q11);
    assert(s[q12] == '}') by {
        assert(s[q12] == s.subrange(q12, q12 + 1)[0]);
    }
    assert(ProgramV {
        name: p.name,
        path: p.path,
        settings: p.settings,
        icon: p.icon,
        command: p.command,
        deps: p.deps,
    } =~= p);
}

/// Reading serialized program-array members up to the closing bracket
/// recovers the program list.
proof fn lemma_parse_ser_programs_items(ps: Seq<ProgramV>, s: Seq<char>, i: int)
    requires
        ps.len() > 0,
        0 <= i,
        i + ser_programs_inner(ps).len() + 1 <= s.len(),
        s.subrange(i, i + ser_programs_inner(ps).len()) == ser_programs_inner(ps),
        s[i + ser_programs_inner(ps).len()] == ']',
    ensures
        parse_programs_items(s, i) == Some((ps, i + ser_programs_inner(ps).len() + 1)),
    decreases ps.len(),
{
    let p = ps[0];
    let item = ser_program(p);
    if ps.len() == 1 {
        assert(ser_programs_inner(ps) == item);
        lemma_parse_ser_program(p, s, i);
        assert(seq![p] =~= ps);
    } else {
        let rest = ps.drop_first();
        let t1 = seq![','] + ser_programs_inner(rest);
        assert(ser_programs_inner(ps) =~= item + t1);
        lemma_split_at(s, i, item, t1);
        lemma_parse_ser_program(p, s, i);
        let j = i + item.len() as int;
        lemma_split_at(s, j, seq![','], ser_programs_inner(rest));
        assert(s[j] == ',') by {
            assert(s[j] == s.subrange(j, j + 1)[0]);
        }
        lemma_parse_ser_programs_items(rest, s, j + 1);
        assert(seq![p] + rest =~= ps);
    }
}

/// Serialization round-trip: parsing the document a registry serializes
/// to yields exactly that registry — every program, in order, with every
/// field intact.
pub proof fn lemma_parse_ser_config(c: ConfigV)
    ensures
        parse_config(ser_config(c)) == Some(c),
{
    reveal_strlit("{\"programs\":[");
    reveal_strlit("]}");
    reveal_strlit("{\"name\":");
    let s = ser_config(c);
    let h = "{\"programs\":["@;
    let inner = ser_programs_inner(c.programs);
    let t = "]}"@;
    let r1 = inner + t;
    assert(s =~= h + r1);
    assert(s.subrange(0, s.len() as int) =~= s);
    lemma_split_at(s, 0, h, r1);
    assert(starts_with(s, 0, h));
    let j = h.len() as int;
    lemma_split_at(s, j, inner, t);
    if c.programs.len() == 0 {
        assert(inner.len() == 0);
        assert(starts_with(s, j, t));
        assert(t.len() == 2);
        assert(ConfigV { programs: Seq::empty() } =~= c);
    } else {
        assert(inner[0] == ser_program(c.programs[0])[0]) by {
            if c.programs.len() == 1 {
            } else {
                assert(inner == ser_program(c.programs[0]) + seq![','] + ser_programs_inner(
                    c.programs.drop_first(),
                ));
            }
        }
        assert(ser_program(c.programs[0])[0] == '{') by {
            assert(ser_program(c.programs[0])[0] == "{\"name\":"@[0]);
        }
        assert(s[j] == '{') by {
            assert(s[j] == s.subrange(j, j + inner.len())[0]);
        }
        assert(!(starts_with(s, j, t) && j + t.len() == s.len())) by {
            assert(t[0] == ']');
            if starts_with(s, j, t) {
                assert(s[j] == s.subrange(j, j + t.len() as int)[0]);
            }
        }
        assert(s[j + inner.len()] == ']') by {
            assert(s[j + inner.len()] == s.subrange(j, j + inner.len() + 2)[inner.len() as int]);
            assert(s.subrange(j, j + inner.len() + 2) =~= inner + t);
        }
        lemma_parse_ser_programs_items(c.programs, s, j);
        let k = j + inner.len() + 1;
        assert(s[k] == '}') by {
            assert(s[k] == s.subrange(j + inner.len(), j + inner.len() + 2)[1]);
        }
        assert(k + 1 == s.len());
        assert(ConfigV { programs: c.programs } =~= c);
    }
}

/// Checks that `lit` stands in `v` at position `i`.
fn starts_with_at(v: &Vec<char>, i: usize, lit: &str) -> (r: bool)
    ensures
        r == starts_with(v@, i as int, lit@),
{
    let n = lit.unicode_len();
    if i > v.len() || n > v.len() - i {
        return false;
    }
    let end = i + n;
    let mut pos: usize = i;
    while pos < end
        invariant
            i <= pos <= end,
            end == i + n,
            n == lit@.len(),
            i + n <= v@.len(),
            forall|t: int| 0 <= t < pos - i ==> v@[i + t] == lit@[t],
        decreases end - pos,
    {
        if v[pos] != lit.get_char(pos - i) {
            proof {
                let sub = v@.subrange(i as int, i + lit@.len());
                assert(sub[pos - i] != lit@[pos - i]);
            }
            return false;
        }
        pos = pos + 1;
    }
    proof {
        assert(v@.subrange(i as int, i + lit@.len()) =~= lit@);
    }
    true
}

/// Reads a quoted, escaped string at `i`, executable side.
fn p_string(v: &Vec<char>, i: usize) -> (r: Option<(String, usize)>)
    ensures
        match r {
            Some(t) => parse_string(v@, i as int) == Some((t.0@, t.1 as int)),
            None => parse_string(v@, i as int) is None,
        },
{
    if !(i < v.len() && v[i] == '"') {
        return None;
    }
    let mut acc = String::new();
    let mut k: usize = i + 1;
    proof {
        match parse_str_body(v@, i + 1) {
            Some((t, j)) => {
                assert(Seq::<char>::empty() + t =~= t);
            },
            None => {},
        }
    }
    loop
        invariant
            i + 1 <= k <= v@.len(),
            i < v@.len() && v@[i as int] == '"',
            parse_str_body(v@, i + 1) == match parse_str_body(v@, k as int) {
                Some((t, j)) => Some((acc@ + t, j)),
                None => None::<(Seq<char>, int)>,
            },
        decreases v@.len() - k,
    {
        if k >= v.len() {
            return None;
        }
        let c = v[k];
        if c == '"' {
            proof {
                assert(acc@ + Seq::<char>::empty() =~= acc@);
            }
            return Some((acc, k + 1));
        } else if c == '\\' {
            if k + 1 < v.len() {
                let e = v[k + 1];
                if e == '"' || e == '\\' || e == 'n' || e == 'r' || e == 't' {
                    let d = if e == 'n' {
                        '\n'
                    } else if e == 'r' {
                        '\r'
                    } else if e == 't' {
                        '\t'
                    } else {
                        e
                    };
                    let ghost old_acc = acc@;
                    push_char(&mut acc, d);
                    k = k + 2;
                    proof {
                        assert(d == unesc(e));
                        match parse_str_body(v@, k as int) {
                            Some((t, j)) => {
                                assert(old_acc + (seq![d] + t) =~= acc@ + t);
                            },
                            None => {},
                        }
                    }
                } else {
                    return None;
                }
            } else {
                return None;
            }
        } else {
            let ghost old_acc = acc@;
            push_char(&mut acc, c);
            k = k + 1;
            proof {
                match parse_str_body(v@, k as int) {
                    Some((t, j)) => {
                        assert(old_acc + (seq![c] + t) =~= acc@ + t);
                    },
                    None => {},
                }
            }
        }
    }
}

/// The feature a persisted name denotes, executable side.
fn feature_from_name(n: &str) -> (r: Option<Feature>)
    ensures
        r == feature_of_name(n@),
{
    if crate::text::str_eq(n, "Display") {
        Some(Feature::Display)
    } else if crate::text::str_eq(n, "Sound") {
        Some(Feature::Sound)
    } else if crate::text::str_eq(n, "Notification") {
        Some(Feature::Notification)
    } else if crate::text::str_eq(n, "Webcam") {
        Some(Feature::Webcam)
    } else if crate::text::str_eq(n, "Printer") {
        Some(Feature::Printer)
    } else if crate::text::str_eq(n, "HomePersistent") {
        Some(Feature::HomePersistent)
    } else if crate::text::str_eq(n, "Time") {
        Some(Feature::Time)
    } else if crate::text::str_eq(n, "Devices") {
        Some(Feature::Devices)
    } else {
        None
    }
}

/// Reads a feature array at `i`, executable side.
fn p_features(v: &Vec<char>, i: usize) -> (r: Option<(Vec<Feature>, usize)>)
    ensures
        match r {
            Some(t) => parse_features(v@, i as int) == Some((t.0@, t.1 as int)),
            None => parse_features(v@, i as int) is None,
        },
{
    if !(i < v.len() && v[i] == '[') {
        return None;
    }
    if i + 1 < v.len() && v[i + 1] == ']' {
        return Some((Vec::new(), i + 2));
    }
    let mut fs: Vec<Feature> = Vec::new();
    let mut k: usize = i + 1;
    proof {
        match parse_features_items(v@, i + 1) {
            Some((rest, j)) => {
                assert(Seq::<Feature>::empty() + rest =~= rest);
            },
            None => {},
        }
    }
    loop
        invariant
            i + 1 <= k <= v@.len(),
            i < v@.len() && v@[i as int] == '[',
            !(i + 1 < v@.len() && v@[i + 1] == ']'),
            parse_features_items(v@, i + 1) == match parse_features_items(v@, k as int) {
                Some((rest, j)) => Some((fs@ + rest, j)),
                None => None::<(Seq<Feature>, int)>,
            },
        decreases v@.len() - k,
    {
        proof {
            lemma_string_advance(v@, k as int);
        }
        let (name, j) = match p_string(v, k) {
            Some(t) => t,
            None => {
                return None;
            },
        };
        let f = match feature_from_name(name.as_str()) {
            Some(f) => f,
            None => {
                return None;
            },
        };
        if j < v.len() && v[j] == ',' {
            let ghost old_fs = fs@;
            fs.push(f);
            k = j + 1;
            proof {
                match parse_features_items(v@, k as int) {
                    Some((rest, m)) => {
                        assert(old_fs + (seq![f] + rest) =~= fs@ + rest);
                    },
                    None => {},
                }
            }
        } else if j < v.len() && v[j] == ']' {
            let ghost old_fs = fs@;
            fs.push(f);
            proof {
                assert(old_fs + seq![f] =~= fs@);
            }
            return Some((fs, j + 1));
        } else {
            return None;
        }
    }
}

/// Reads the icon member at `i`, executable side.
fn p_icon(v: &Vec<char>, i: usize) -> (r: Option<(Option<Icon>, usize)>)
    ensures
        match r {
            Some(t) => parse_icon(v@, i as int) == Some((t.0.deep_view(), t.1 as int)),
            None => parse_icon(v@, i as int) is None,
        },
{
    let vl = v.len();
    if starts_with_at(v, i, "null") {
        let nl = "null".unicode_len();
        Some((None, i + nl))
    } else if starts_with_at(v, i, "{\"path\":") {
        let h = "{\"path\":".unicode_len();
        match p_string(v, i + h) {
            Some((p, j)) => {
                if j < vl && v[j] == '}' {
                    Some((Some(Icon { path: p }), j + 1))
                } else {
                    None
                }
            },
            None => None,
        }
    } else {
        None
    }
}

/// Reads an optional string member at `i`, executable side.
fn p_opt_string(v: &Vec<char>, i: usize) -> (r: Option<(Option<String>, usize)>)
    ensures
        match r {
            Some(t) => parse_opt_string(v@, i as int) == Some((t.0.deep_view(), t.1 as int)),
            None => parse_opt_string(v@, i as int) is None,
        },
{
    proof {
        assert(v@.len() == v.len());
    }
    if starts_with_at(v, i, "null") {
        let nl = "null".unicode_len();
        Some((None, i + nl))
    } else {
        match p_string(v, i) {
            Some((t, j)) => Some((Some(t), j)),
            None => None,
        }
    }
}

/// Reads one program object at `i`, executable side.
#[verifier::rlimit(60)]
fn p_program(v: &Vec<char>, i: usize) -> (r: Option<(Program, usize)>)
    ensures
        match r {
            Some(t) => parse_program(v@, i as int) == Some((t.0@, t.1 as int)),
            None => parse_program(v@, i as int) is None,
        },
{
    let vl = v.len();
    if !starts_with_at(v, i, "{\"name\":") {
        return None;
    }
    let q1 = i + "{\"name\":".unicode_len();
    let (name, j1) = match p_string(v, q1) {
        Some(t) => t,
        None => {
            return None;
        },
    };
    if !starts_with_at(v, j1, ",\"path\":") {
        return None;
    }
    let q2 = j1 + ",\"path\":".unicode_len();
    let (path, j2) = match p_string(v, q2) {
        Some(t) => t,
        None => {
            return None;
        },
    };
    if !starts_with_at(v, j2, ",\"settings\":") {
        return None;
    }
    let q3 = j2 + ",\"settings\":".unicode_len();
    let (settings, j3) = match p_features(v, q3) {
        Some(t) => t,
        None => {
            return None;
        },
    };
    if !starts_with_at(v, j3, ",\"icon\":") {
        return None;
    }
    let q4 = j3 + ",\"icon\":".unicode_len();
    let (icon, j4) = match p_icon(v, q4) {
        Some(t) => t,
        None => {
            return None;
        },
    };
    if !starts_with_at(v, j4, ",\"command\":") {
        return None;
    }
    let q5 = j4 + ",\"command\":".unicode_len();
    let (command, j5) = match p_string(v, q5) {
        Some(t) => t,
        None => {
            return None;
        },
    };
    if !starts_with_at(v, j5, ",\"deps\":") {
        return None;
    }
    let q6 = j5 + ",\"deps\":".unicode_len();
    let (deps, j6) = match p_opt_string(v, q6) {
        Some(t) => t,
        None => {
            return None;
        },
    };
    if j6 < vl && v[j6] == '}' {
        let program = Program { name, path, settings, icon, command, deps };
        proof {
            match parse_program(v@, i as int) {
                Some((pv, end)) => {
                    assert(program@ =~= pv);
                },
                None => {},
            }
        }
        Some((program, j6 + 1))
    } else {
        None
    }
}

/// Reads the program-array members at `i`, executable side.
fn p_programs_items(v: &Vec<char>, i: usize) -> (r: Option<(Vec<Program>, usize)>)
    requires
        i <= v@.len(),
    ensures
        match r {
            Some(t) => parse_programs_items(v@, i as int) == Some((t.0.deep_view(), t.1 as int)),
            None => parse_programs_items(v@, i as int) is None,
        },
{
    let vl = v.len();
    let mut ps: Vec<Program> = Vec::new();
    let mut k: usize = i;
    proof {
        match parse_programs_items(v@, i as int) {
            Some((rest, j)) => {
                assert(Seq::<ProgramV>::empty() + rest =~= rest);
            },
            None => {},
        }
    }
    loop
        invariant
            i <= k <= v@.len(),
            vl == v@.len(),
            parse_programs_items(v@, i as int) == match parse_programs_items(v@, k as int) {
                Some((rest, j)) => Some((ps.deep_view() + rest, j)),
                None => None::<(Seq<ProgramV>, int)>,
            },
        decreases v@.len() - k,
    {
        proof {
            lemma_program_advance(v@, k as int);
        }
        let (p, j) = match p_program(v, k) {
            Some(t) => t,
            None => {
                return None;
            },
        };
        if j < vl && v[j] == ',' {
            let ghost old_ps = ps.deep_view();
            let ghost pv = p@;
            ps.push(p);
            k = j + 1;
            proof {
                assert(ps.deep_view() =~= old_ps.push(pv));
                match parse_programs_items(v@, k as int) {
                    Some((rest, m)) => {
                        assert(old_ps + (seq![pv] + rest) =~= ps.deep_view() + rest);
                    },
                    None => {},
                }
            }
        } else if j < vl && v[j] == ']' {
            let ghost old_ps = ps.deep_view();
            let ghost pv = p@;
            ps.push(p);
            proof {
                assert(ps.deep_view() =~= old_ps.push(pv));
                assert(old_ps + seq![pv] =~= ps.deep_view());
            }
            return Some((ps, j + 1));
        } else {
            return None;
        }
    }
}

/// Reads a whole registry document, executable side: the registry it
/// denotes, or nothing when the text is not a canonical document.
pub fn read_config(text: &str) -> (r: Option<Config>)
    ensures
        match r {
            Some(c) => parse_config(text@) == Some(c@),
            None => parse_config(text@) is None,
        },
{
    let v = chars_of(text);
    let vl = v.len();
    if !starts_with_at(&v, 0, "{\"programs\":[") {
        return None;
    }
    let j = "{\"programs\":[".unicode_len();
    let tl = "]}".unicode_len();
    if starts_with_at(&v, j, "]}") && j + tl == vl {
        let empty: Vec<Program> = Vec::new();
        proof {
            assert(empty.deep_view() =~= Seq::<ProgramV>::empty());
        }
        return Some(Config { programs: empty });
    }
    match p_programs_items(&v, j) {
        Some((ps, k)) => {
            if k < vl && v[k] == '}' && k + 1 == vl {
                Some(Config { programs: ps })
            } else {
                None
            }
        },
        None => None,
    }
}

} // verus!
