//! The pipeline's decisions, tied together over one registry: listing,
//! creating, removing and launching programs.
//!
//! Everything here is pure computation over plain values. The host work
//! around it — archive extraction, the engine calls, file staging and
//! cleanup, persisting the registry — happens outside the crate, before
//! and after these calls.

use vstd::prelude::*;
use crate::buildspec::{gen_dockerfile, spec_dockerfile};
use crate::config::{has_program, spec_find, wf, Config};
use crate::deb::{Deb, DebV};
use crate::docker::{run_args, spec_image_tag, spec_run_args};
use crate::error::AppError;
use crate::features::{spec_validate, FeaturesList};
use crate::program::{Feature, Icon, IconV, Program, ProgramV};
use crate::sys::System;

verus! {

/// The program view that a `create` request determines: named after the
/// package, carrying the requested features, with the command falling
/// back to the package name.
pub open spec fn spec_new_program(
    deb: DebV,
    path: Seq<char>,
    settings: Seq<Feature>,
    icon: Option<IconV>,
    cmd: Option<Seq<char>>,
    deps: Option<Seq<char>>,
) -> ProgramV {
    ProgramV {
        name: deb.package,
        path: path,
        settings: settings,
        icon: icon,
        command: match cmd {
            Some(c) => c,
            None => deb.package,
        },
        deps: deps,
    }
}

/// Everything the host must do to finish a `create`: the program to
/// register, the build-specification text to stage, and the image tag to
/// build under.
pub struct CreatePlan {
    pub program: Program,
    pub dockerfile: String,
    pub tag: String,
}

/// The pipeline state: the image namespace, the build-context cache
/// path, the registry, and the host's capability snapshot.
pub struct App {
    pub prefix: String,
    pub cache_path: String,
    pub config: Config,
    pub features: FeaturesList,
}

impl App {
    /// Assembles the pipeline over an existing registry and the host's
    /// capability snapshot.
    pub fn new(prefix: &str, cache_path: &str, config: &Config, system: &System) -> (r: Self)
        ensures
            r.prefix@ == prefix@,
            r.cache_path@ == cache_path@,
            r.config@ == config@,
            r.features@ == crate::features::spec_snapshot(system.wm is Some, system.sd is Some),
    {
        App {
            prefix: String::from_str(prefix),
            cache_path: String::from_str(cache_path),
            config: Config::new(&config.programs),
            features: FeaturesList::new(system),
        }
    }

    /// The names of the registered programs, in registry order.
    pub fn list(&self) -> (r: Vec<String>)
        ensures
            r.deep_view() == Seq::new(
                self.config@.programs.len(),
                |i: int| self.config@.programs[i].name,
            ),
    {
        let mut out: Vec<String> = Vec::new();
        let mut i: usize = 0;
        while i < self.config.programs.len()
            invariant
                i <= self.config@.programs.len(),
                out@.len() == i,
                forall|j: int| 0 <= j < i ==> out@[j]@ == self.config@.programs[j].name,
            decreases self.config@.programs.len() - i,
        {
            out.push(self.config.programs[i].get_name_short());
            i = i + 1;
        }
        proof {
            assert(out.deep_view() =~= Seq::new(
                self.config@.programs.len(),
                |i: int| self.config@.programs[i].name,
            ));
        }
        out
    }

    /// Validates and registers one `create` request, handing back what
    /// the host must stage and build.
    ///
    /// Nothing is registered — and so nothing may be built — unless every
    /// requested feature is listed in the snapshot, the invoking user
    /// resolved, and the package's name is still free; each failure names
    /// its own error and leaves the registry exactly as it was.
    pub fn create(
        &mut self,
        deb: &Deb,
        path: &str,
        settings: &Vec<Feature>,
        icon: &Option<Icon>,
        cmd: &Option<String>,
        deps: &Option<String>,
        user: &Option<String>,
    ) -> (r: Result<CreatePlan, AppError>)
        ensures
            final(self).prefix == old(self).prefix,
            final(self).cache_path == old(self).cache_path,
            final(self).features == old(self).features,
            !spec_validate(old(self).features@, settings@) ==> {
                &&& r matches Err(AppError::UnsupportedFeature)
                &&& final(self).config@ == old(self).config@
            },
            spec_validate(old(self).features@, settings@) && user is None ==> {
                &&& r matches Err(AppError::UserResolutionFailed)
                &&& final(self).config@ == old(self).config@
            },
            spec_validate(old(self).features@, settings@) && user is Some && has_program(
                old(self).config@,
                deb@.package,
            ) ==> {
                &&& r matches Err(AppError::DuplicateProgram(n)) && n@ == deb@.package
                &&& final(self).config@ == old(self).config@
            },
            spec_validate(old(self).features@, settings@) && user is Some && !has_program(
                old(self).config@,
                deb@.package,
            ) ==> {
                let program = spec_new_program(
                    deb@,
                    path@,
                    settings@,
                    icon.deep_view(),
                    cmd.deep_view(),
                    deps.deep_view(),
                );
                &&& r matches Ok(plan) && plan.program@ == program && plan.dockerfile@
                    == spec_dockerfile(deb@, program, user->Some_0@) && plan.tag@
                    == spec_image_tag(old(self).prefix@, deb@.package)
                &&& final(self).config@.programs == old(self).config@.programs.push(program)
            },
            wf(old(self).config@) ==> wf(final(self).config@),
    {
        if !self.features.validate(settings) {
            return Err(AppError::UnsupportedFeature);
        }
        let package = deb.package.clone();
        let program = Program::new(package.as_str(), path, settings, icon, cmd, deps);
        let dockerfile = match gen_dockerfile(deb, &program, user) {
            Ok(text) => text,
            Err(e) => {
                return Err(e);
            },
        };
        match self.config.push(&program) {
            Ok(_) => {},
            Err(e) => {
                return Err(e);
            },
        }
        let tag = crate::docker::image_tag(self.prefix.as_str(), deb.package.as_str());
        Ok(CreatePlan { program, dockerfile, tag })
    }

    /// Unregisters the program named `name` and hands it back so that
    /// the host can tear down its image and containers.
    ///
    /// An absent name is refused with `ProgramNotFound` and changes
    /// nothing.
    pub fn remove(&mut self, name: &str) -> (r: Result<Program, AppError>)
        ensures
            final(self).prefix == old(self).prefix,
            final(self).cache_path == old(self).cache_path,
            final(self).features == old(self).features,
            match spec_find(old(self).config@.programs, name@) {
                Some(i) => {
                    &&& r matches Ok(p) && p@ == old(self).config@.programs[i]
                    &&& final(self).config@.programs == old(self).config@.programs.remove(i)
                },
                None => {
                    &&& r matches Err(AppError::ProgramNotFound(n)) && n@ == name@
                    &&& final(self).config@ == old(self).config@
                },
            },
            wf(old(self).config@) ==> wf(final(self).config@),
    {
        let found = match self.config.find(name) {
            Some(f) => f,
            None => {
                return Err(AppError::ProgramNotFound(String::from_str(name)));
            },
        };
        proof {
            let i = spec_find(self.config@.programs, name@)->Some_0;
            crate::config::lemma_spec_find_some(self.config@.programs, name@, i);
        }
        match self.config.remove(&found.0) {
            Ok(_) => Ok(found.0),
            Err(_) => Err(AppError::ProgramNotFound(String::from_str(name))),
        }
    }

    /// Derives the launch argument vector for the program named `name`,
    /// `home` being the invoking user's home directory.
    pub fn run(&self, name: &str, home: &str) -> (r: Result<Vec<String>, AppError>)
        ensures
            match spec_find(self.config@.programs, name@) {
                Some(i) => r matches Ok(args) && args.deep_view() == spec_run_args(
                    self.config@.programs[i],
                    home@,
                    self.prefix@,
                ),
                None => r matches Err(AppError::ProgramNotFound(n)) && n@ == name@,
            },
    {
        match self.config.find(name) {
            Some((program, _)) => Ok(run_args(&program, home, self.prefix.as_str())),
            None => Err(AppError::ProgramNotFound(String::from_str(name))),
        }
    }
}

} // verus!
