//! Installed programs: the feature requests they carry, their icon, and
//! the name under which the registry and the engine know them.

use vstd::prelude::*;

verus! {

/// A host capability a packaged program may request.
///
/// `Webcam` and `Printer` are reserved requests: they take part in
/// validation and persistence but derive no container arguments yet.
#[derive(Debug, Clone, Copy, PartialEq, Eq, Structural)]
pub enum Feature {
    Display,
    Sound,
    Notification,
    Webcam,
    Printer,
    HomePersistent,
    Time,
    Devices,
}

impl Feature {
    /// The name under which the feature is persisted in the registry file.
    pub open spec fn spec_name(self) -> Seq<char> {
        match self {
            Feature::Display => "Display"@,
            Feature::Sound => "Sound"@,
            Feature::Notification => "Notification"@,
            Feature::Webcam => "Webcam"@,
            Feature::Printer => "Printer"@,
            Feature::HomePersistent => "HomePersistent"@,
            Feature::Time => "Time"@,
            Feature::Devices => "Devices"@,
        }
    }

    /// Renders the persisted name of the feature.
    pub fn name(&self) -> (r: &'static str)
        ensures
            r@ == self.spec_name(),
    {
        match self {
            Feature::Display => "Display",
            Feature::Sound => "Sound",
            Feature::Notification => "Notification",
            Feature::Webcam => "Webcam",
            Feature::Printer => "Printer",
            Feature::HomePersistent => "HomePersistent",
            Feature::Time => "Time",
            Feature::Devices => "Devices",
        }
    }
}

/// Reference to the icon asset a desktop launcher would use.
pub struct Icon {
    pub path: String,
}

/// Mathematical image of an [`Icon`].
#[verifier::ext_equal]
pub ghost struct IconV {
    pub path: Seq<char>,
}

impl View for Icon {
    type V = IconV;

    open spec fn view(&self) -> IconV {
        IconV { path: self.path@ }
    }
}

impl DeepView for Icon {
    type V = IconV;

    open spec fn deep_view(&self) -> IconV {
        self.view()
    }
}

impl Icon {
    pub fn new(path: &str) -> (r: Self)
        ensures
            r@.path == path@,
    {
        Icon { path: String::from_str(path) }
    }
}

impl Clone for Icon {
    fn clone(&self) -> (r: Self)
        ensures
            r@ == self@,
    {
        Icon { path: self.path.clone() }
    }
}

/// An installed program as the registry records it.
///
/// The name is the primary key: no two programs of one registry share
/// it; [`Program::get_name_short`] reads it back without the prefix.
pub struct Program {
    pub name: String,
    pub path: String,
    pub settings: Vec<Feature>,
    pub icon: Option<Icon>,
    pub command: String,
    pub deps: Option<String>,
}

/// Mathematical image of a [`Program`].
#[verifier::ext_equal]
pub ghost struct ProgramV {
    pub name: Seq<char>,
    pub path: Seq<char>,
    pub settings: Seq<Feature>,
    pub icon: Option<IconV>,
    pub command: Seq<char>,
    pub deps: Option<Seq<char>>,
}

impl View for Program {
    type V = ProgramV;

    open spec fn view(&self) -> ProgramV {
        ProgramV {
            name: self.name@,
            path: self.path@,
            settings: self.settings@,
            icon: match self.icon {
                Some(icon) => Some(icon@),
                None => None,
            },
            command: self.command@,
            deps: match self.deps {
                Some(deps) => Some(deps@),
                None => None,
            },
        }
    }
}

impl DeepView for Program {
    type V = ProgramV;

    open spec fn deep_view(&self) -> ProgramV {
        self.view()
    }
}

impl Program {
    /// Builds a program record. The command defaults to the program's own
    /// name when none is supplied.
    pub fn new(
        name: &str,
        path: &str,
        settings: &Vec<Feature>,
        icon: &Option<Icon>,
        cmd: &Option<String>,
        deps: &Option<String>,
    ) -> (r: Self)
        ensures
            r@.name == name@,
            r@.path == path@,
            r@.settings == settings@,
            r@.icon == icon.deep_view(),
            r@.command == match cmd {
                Some(c) => c@,
                None => name@,
            },
            r@.deps == deps.deep_view(),
    {
        Program {
            name: String::from_str(name),
            path: String::from_str(path),
            settings: clone_features(settings),
            icon: match icon {
                Some(i) => Some(i.clone()),
                None => None,
            },
            command: match cmd {
                Some(c) => c.clone(),
                None => String::from_str(name),
            },
            deps: match deps {
                Some(d) => Some(d.clone()),
                None => None,
            },
        }
    }

    /// The image tag of the program: the configured namespace prefix, an
    /// underscore, then the program's name. The prefix is the sole guard
    /// against collisions with unrelated images on the engine.
    pub fn get_name(&self, prefix: &str) -> (r: String)
        ensures
            r@ == prefix@ + "_"@ + self@.name,
    {
        String::from_str(prefix).concat("_").concat(self.name.as_str())
    }

    /// The bare program name, without the namespace prefix.
    pub fn get_name_short(&self) -> (r: String)
        ensures
            r@ == self@.name,
    {
        self.name.clone()
    }
}

impl Clone for Program {
    fn clone(&self) -> (r: Self)
        ensures
            r@ == self@,
    {
        Program {
            name: self.name.clone(),
            path: self.path.clone(),
            settings: clone_features(&self.settings),
            icon: match &self.icon {
                Some(i) => Some(i.clone()),
                None => None,
            },
            command: self.command.clone(),
            deps: match &self.deps {
                Some(d) => Some(d.clone()),
                None => None,
            },
        }
    }
}

/// Copies a feature list element by element.
pub fn clone_features(settings: &Vec<Feature>) -> (r: Vec<Feature>)
    ensures
        r@ == settings@,
{
    let mut out: Vec<Feature> = Vec::new();
    let mut i: usize = 0;
    while i < settings.len()
        invariant
            i <= settings.len(),
            out@ == settings@.subrange(0, i as int),
        decreases settings.len() - i,
    {
        out.push(settings[i]);
        i = i + 1;
        proof {
            assert(out@ =~= settings@.subrange(0, i as int));
        }
    }
    proof {
        assert(out@ =~= settings@);
    }
    out
}

} // verus!
