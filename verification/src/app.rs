use vstd::prelude::*;
use vstd::string::*;

verus! {

/// The namespace under which every OrbitalOS application id lives.
pub const APP_NAMESPACE: &'static str = "io.github.grvtyai.orbitalos";

/// The applications of the OrbitalOS suite.
#[derive(Debug, Clone, Copy, PartialEq, Eq, Hash, Structural)]
pub enum OrbitalApp {
    Control,
    Dock,
    Drift,
    Prism,
    Relay,
    Vector,
    Blink,
}

/// Identity of one application, as handed to the desktop shell.
#[derive(Debug, Clone, PartialEq, Eq)]
pub struct AppDescriptor {
    pub app: OrbitalApp,
    pub display_name: &'static str,
    pub slug: &'static str,
    pub application_id: String,
}

/// The lower-case slug of an application, used in directory names.
pub open spec fn slug_of(app: OrbitalApp) -> Seq<char> {
    match app {
        OrbitalApp::Control => "control"@,
        OrbitalApp::Dock => "dock"@,
        OrbitalApp::Drift => "drift"@,
        OrbitalApp::Prism => "prism"@,
        OrbitalApp::Relay => "relay"@,
        OrbitalApp::Vector => "vector"@,
        OrbitalApp::Blink => "blink"@,
    }
}

/// The human-readable name of an application.
pub open spec fn display_name_of(app: OrbitalApp) -> Seq<char> {
    match app {
        OrbitalApp::Control => "Control"@,
        OrbitalApp::Dock => "Dock"@,
        OrbitalApp::Drift => "Drift"@,
        OrbitalApp::Prism => "Prism"@,
        OrbitalApp::Relay => "Relay"@,
        OrbitalApp::Vector => "Vector"@,
        OrbitalApp::Blink => "Blink"@,
    }
}

/// The reverse-DNS application id: the namespace, a dot and the slug.
pub open spec fn application_id_of(app: OrbitalApp) -> Seq<char> {
    APP_NAMESPACE@ + "."@ + slug_of(app)
}

impl OrbitalApp {
    pub fn slug(self) -> (s: &'static str)
        ensures
            s@ == slug_of(self),
    {
        match self {
            OrbitalApp::Control => "control",
            OrbitalApp::Dock => "dock",
            OrbitalApp::Drift => "drift",
            OrbitalApp::Prism => "prism",
            OrbitalApp::Relay => "relay",
            OrbitalApp::Vector => "vector",
            OrbitalApp::Blink => "blink",
        }
    }

    pub fn display_name(self) -> (s: &'static str)
        ensures
            s@ == display_name_of(self),
    {
        match self {
            OrbitalApp::Control => "Control",
            OrbitalApp::Dock => "Dock",
            OrbitalApp::Drift => "Drift",
            OrbitalApp::Prism => "Prism",
            OrbitalApp::Relay => "Relay",
            OrbitalApp::Vector => "Vector",
            OrbitalApp::Blink => "Blink",
        }
    }

    pub fn application_id(self) -> (id: String)
        ensures
            id@ == application_id_of(self),
    {
        let id = String::from_str(APP_NAMESPACE);
        let id = id.concat(".");
        id.concat(self.slug())
    }

    pub fn descriptor(self) -> (d: AppDescriptor)
        ensures
            d.app == self,
            d.display_name@ == display_name_of(self),
            d.slug@ == slug_of(self),
            d.application_id@ == application_id_of(self),
    {
        AppDescriptor {
            app: self,
            display_name: self.display_name(),
            slug: self.slug(),
            application_id: self.application_id(),
        }
    }
}

} // verus!
