//! Deterministic build-specification generation: the fixed instruction
//! sequence that turns a staged package into a container image.

use vstd::prelude::*;
use crate::deb::{join_space, Deb, DebV};
use crate::error::AppError;
use crate::program::{Program, ProgramV};

verus! {

/// One build instruction, tagged by kind.
pub enum Instruction {
    /// Base image pin.
    Base(String),
    /// Environment assignment.
    Env(String),
    /// Working directory switch.
    Workdir(String),
    /// Copy into the build context.
    Copy(String),
    /// Shell step.
    Run(String),
    /// Runtime user switch.
    User(String),
    /// Default command.
    Cmd(String),
}

/// Mathematical image of an [`Instruction`].
#[verifier::ext_equal]
pub ghost enum InstructionV {
    Base(Seq<char>),
    Env(Seq<char>),
    Workdir(Seq<char>),
    Copy(Seq<char>),
    Run(Seq<char>),
    User(Seq<char>),
    Cmd(Seq<char>),
}

impl View for Instruction {
    type V = InstructionV;

    open spec fn view(&self) -> InstructionV {
        match self {
            Instruction::Base(s) => InstructionV::Base(s@),
            Instruction::Env(s) => InstructionV::Env(s@),
            Instruction::Workdir(s) => InstructionV::Workdir(s@),
            Instruction::Copy(s) => InstructionV::Copy(s@),
            Instruction::Run(s) => InstructionV::Run(s@),
            Instruction::User(s) => InstructionV::User(s@),
            Instruction::Cmd(s) => InstructionV::Cmd(s@),
        }
    }
}

/// The views of a sequence of instructions, element by element.
pub open spec fn instruction_views(l: Seq<Instruction>) -> Seq<InstructionV> {
    Seq::new(l.len(), |i: int| l[i]@)
}

/// One instruction as a line of the build specification.
pub open spec fn render_instruction(i: InstructionV) -> Seq<char> {
    match i {
        InstructionV::Base(s) => "FROM "@ + s + "\n"@,
        InstructionV::Env(s) => "ENV "@ + s + "\n"@,
        InstructionV::Workdir(s) => "WORKDIR "@ + s + "\n"@,
        InstructionV::Copy(s) => "COPY "@ + s + "\n"@,
        InstructionV::Run(s) => "RUN "@ + s + "\n"@,
        InstructionV::User(s) => "USER "@ + s + "\n"@,
        InstructionV::Cmd(s) => "CMD "@ + s + "\n"@,
    }
}

/// A whole instruction sequence as text, one line per instruction.
pub open spec fn render_spec(l: Seq<InstructionV>) -> Seq<char>
    decreases l.len(),
{
    if l.len() == 0 {
        Seq::empty()
    } else {
        render_spec(l.drop_last()) + render_instruction(l.last())
    }
}

/// The instruction sequence a descriptor, a program and a resolved user
/// determine, in its fixed order: base image, user environment, working
/// directory, package copy-in, index refresh, then the optional
/// dependency installs, the package install, the fix-up step, and the
/// runtime user, home and command.
///
/// Descriptor dependencies are installed with a trailing `exit 0` so
/// that one missing dependency cannot abort the build; the extra
/// user-supplied dependencies carry no such guard and may fail it. The
/// package install tolerates failure (`|| true`): the following step
/// repairs the broken dependency state.
pub open spec fn spec_instructions(deb: DebV, program: ProgramV, user: Seq<char>) -> Seq<
    InstructionV,
> {
    let head = seq![
        InstructionV::Base("debian:9-slim"@),
        InstructionV::Env("informuser="@ + user),
        InstructionV::Workdir("/data"@),
        InstructionV::Copy("tmp.deb /data/application.deb"@),
        InstructionV::Run("apt-get update"@),
    ];
    let with_deps = match deb.dependencies {
        Some(d) => if d.len() > 0 {
            head.push(InstructionV::Run("apt-get install -y "@ + join_space(d) + "; exit 0"@))
        } else {
            head
        },
        None => head,
    };
    let with_extra = match program.deps {
        Some(e) => with_deps.push(InstructionV::Run("apt-get install -y "@ + e)),
        None => with_deps,
    };
    with_extra + seq![
        InstructionV::Run("dpkg -i /data/application.deb || true"@),
        InstructionV::Run(
            "apt-get install -y -f --no-install-recommends && rm -rf /var/lib/apt/lists/* && useradd $informuser"@,
        ),
        InstructionV::User("$informuser"@),
        InstructionV::Env("HOME /home/$informuser"@),
        InstructionV::Cmd(program.command),
    ]
}

/// The build-specification text those instructions render to.
pub open spec fn spec_dockerfile(deb: DebV, program: ProgramV, user: Seq<char>) -> Seq<char> {
    render_spec(spec_instructions(deb, program, user))
}

/// Builds the instruction sequence for `deb` and `program` under the
/// resolved invoking user.
pub fn gen_instructions(deb: &Deb, program: &Program, user: &str) -> (r: Vec<Instruction>)
    ensures
        instruction_views(r@) == spec_instructions(deb@, program@, user@),
{
    let mut instrs: Vec<Instruction> = Vec::new();
    instrs.push(Instruction::Base(String::from_str("debian:9-slim")));
    instrs.push(Instruction::Env(String::from_str("informuser=").concat(user)));
    instrs.push(Instruction::Workdir(String::from_str("/data")));
    instrs.push(Instruction::Copy(String::from_str("tmp.deb /data/application.deb")));
    instrs.push(Instruction::Run(String::from_str("apt-get update")));
    match &deb.dependencies {
        Some(d) => {
            if d.len() > 0 {
                let joined = d.extract();
                instrs.push(
                    Instruction::Run(
                        String::from_str("apt-get install -y ").concat(joined.as_str()).concat(
                            "; exit 0",
                        ),
                    ),
                );
            }
        },
        None => {},
    }
    match &program.deps {
        Some(e) => {
            instrs.push(Instruction::Run(String::from_str("apt-get install -y ").concat(e.as_str())));
        },
        None => {},
    }
    instrs.push(Instruction::Run(String::from_str("dpkg -i /data/application.deb || true")));
    instrs.push(
        Instruction::Run(
            String::from_str(
                "apt-get install -y -f --no-install-recommends && rm -rf /var/lib/apt/lists/* && useradd $informuser",
            ),
        ),
    );
    instrs.push(Instruction::User(String::from_str("$informuser")));
    instrs.push(Instruction::Env(String::from_str("HOME /home/$informuser")));
    instrs.push(Instruction::Cmd(program.command.clone()));
    proof {
        assert(instruction_views(instrs@) =~= spec_instructions(deb@, program@, user@));
    }
    instrs
}

/// Renders an instruction sequence, one line per instruction.
pub fn render(instrs: &Vec<Instruction>) -> (r: String)
    ensures
        r@ == render_spec(instruction_views(instrs@)),
{
    let mut out = String::new();
    let mut k: usize = 0;
    proof {
        assert(instruction_views(instrs@).subrange(0, 0) =~= Seq::<InstructionV>::empty());
    }
    while k < instrs.len()
        invariant
            k <= instrs@.len(),
            out@ == render_spec(instruction_views(instrs@).subrange(0, k as int)),
        decreases instrs@.len() - k,
    {
        let ghost pre = instruction_views(instrs@).subrange(0, k as int);
        let ghost post = instruction_views(instrs@).subrange(0, k as int + 1);
        proof {
            assert(post.drop_last() =~= pre);
            assert(post.last() == instrs@[k as int]@);
        }
        let ins = &instrs[k];
        match ins {
            Instruction::Base(s) => {
                out.append("FROM ");
                out.append(s.as_str());
                out.append("\n");
            },
            Instruction::Env(s) => {
                out.append("ENV ");
                out.append(s.as_str());
                out.append("\n");
            },
            Instruction::Workdir(s) => {
                out.append("WORKDIR ");
                out.append(s.as_str());
                out.append("\n");
            },
            Instruction::Copy(s) => {
                out.append("COPY ");
                out.append(s.as_str());
                out.append("\n");
            },
            Instruction::Run(s) => {
                out.append("RUN ");
                out.append(s.as_str());
                out.append("\n");
            },
            Instruction::User(s) => {
                out.append("USER ");
                out.append(s.as_str());
                out.append("\n");
            },
            Instruction::Cmd(s) => {
                out.append("CMD ");
                out.append(s.as_str());
                out.append("\n");
            },
        }
        proof {
            assert(out@ =~= render_spec(post));
        }
        k = k + 1;
    }
    proof {
        assert(instruction_views(instrs@).subrange(0, k as int) =~= instruction_views(instrs@));
    }
    out
}

/// Renders the build specification for `deb` and `program`.
///
/// The whole text is a function of the descriptor, the program and the
/// resolved user alone: generating it twice from the same inputs yields
/// the same text. An unresolvable user is the one failure.
pub fn gen_dockerfile(deb: &Deb, program: &Program, user: &Option<String>) -> (r: Result<
    String,
    AppError,
>)
    ensures
        match user {
            Some(u) => r matches Ok(s) && s@ == spec_dockerfile(deb@, program@, u@),
            None => r matches Err(AppError::UserResolutionFailed),
        },
{
    match user {
        Some(u) => {
            let instrs = gen_instructions(deb, program, u.as_str());
            Ok(render(&instrs))
        },
        None => Err(AppError::UserResolutionFailed),
    }
}

} // verus!
