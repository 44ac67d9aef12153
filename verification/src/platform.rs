//! The conventions by which a family of operating systems names and lays out
//! a Java runtime.

use vstd::prelude::*;
use vstd::string::*;

verus! {

/// The views of a sequence of string slices.
pub open spec fn strs(slices: Seq<&'static str>) -> Seq<Seq<char>> {
    Seq::new(slices.len(), |i: int| slices[i]@)
}

/// The views of a sequence of layouts.
pub open spec fn layout_views(layouts: Seq<Vec<&'static str>>) -> Seq<Seq<Seq<char>>> {
    Seq::new(layouts.len(), |i: int| strs(layouts[i]@))
}

/// A family of operating systems.
#[derive(Clone, Copy, Debug, PartialEq, Eq, Structural)]
pub enum PlatformConventions {
    /// Drive letters, backslashes, `java.exe`.
    WindowsLike,
    /// A single root, forward slashes, `java`.
    UnixLike,
    /// As `UnixLike`; runtimes are as a rule packed as bundles.
    MacLike,
}

impl PlatformConventions {
    /// The file name of the runtime's executable.
    pub open spec fn executable_name(self) -> Seq<char> {
        match self {
            PlatformConventions::WindowsLike => "java.exe"@,
            _ => "java"@,
        }
    }

    /// The text that separates the components of a path.
    pub open spec fn separator(self) -> Seq<char> {
        match self {
            PlatformConventions::WindowsLike => "\\"@,
            _ => "/"@,
        }
    }

    /// The utility that resolves a name to the path of its executable.
    pub open spec fn locator_name(self) -> Seq<char> {
        match self {
            PlatformConventions::WindowsLike => "where"@,
            _ => "which"@,
        }
    }

    /// The places below an installation directory where the executable is
    /// looked for, each as the components of a relative path: always
    /// `bin/<exe>`; then the executable directly in the directory on
    /// Windows-like hosts, and the bundle layout `Contents/Home/bin/<exe>`
    /// on all others, where an unpacked bundle may lie as well.
    pub open spec fn layouts(self) -> Seq<Seq<Seq<char>>> {
        match self {
            PlatformConventions::WindowsLike => seq![
                seq!["bin"@, "java.exe"@],
                seq!["java.exe"@],
            ],
            _ => seq![seq!["bin"@, "java"@], seq!["Contents"@, "Home"@, "bin"@, "java"@]],
        }
    }

    /// The executable below an installation's home directory, as the text
    /// `<home><sep>bin<sep><exe>`.
    pub open spec fn home_executable(self, home: Seq<char>) -> Seq<char> {
        home + self.separator() + "bin"@ + self.separator() + self.executable_name()
    }

    /// Whether hosts of this family offer a locator that discovery consults
    /// for further candidates.
    pub open spec fn consults_locator(self) -> bool {
        self == PlatformConventions::WindowsLike
    }

    /// The environment variable that names the user's profile or home
    /// directory.
    pub open spec fn home_variable_name(self) -> Seq<char> {
        match self {
            PlatformConventions::WindowsLike => "USERPROFILE"@,
            _ => "HOME"@,
        }
    }

    /// Gives the name of the variable that holds the user's profile or home
    /// directory.
    pub fn home_variable(self) -> (r: &'static str)
        ensures
            r@ == self.home_variable_name(),
    {
        match self {
            PlatformConventions::WindowsLike => "USERPROFILE",
            _ => "HOME",
        }
    }

    /// Gives the name of the variable that holds the directory of per-user
    /// application data, on the hosts that have one.
    pub fn app_data_variable(self) -> (r: Option<&'static str>)
        ensures
            r is Some == (self == PlatformConventions::WindowsLike),
            r is Some ==> r->0@ == "APPDATA"@,
    {
        match self {
            PlatformConventions::WindowsLike => Some("APPDATA"),
            _ => None,
        }
    }

    /// Gives the name of the variable that holds the home of the preferred
    /// installation.
    pub fn java_home_variable() -> (r: &'static str)
        ensures
            r@ == "JAVA_HOME"@,
    {
        "JAVA_HOME"
    }

    /// Tells whether discovery consults the locator for further candidates.
    pub fn uses_locator(self) -> (r: bool)
        ensures
            r == self.consults_locator(),
    {
        match self {
            PlatformConventions::WindowsLike => true,
            _ => false,
        }
    }

    /// Gives the places below an installation directory where the
    /// executable is looked for.
    pub fn executable_layouts(self) -> (r: Vec<Vec<&'static str>>)
        ensures
            layout_views(r@) == self.layouts(),
    {
        let r = match self {
            PlatformConventions::WindowsLike => vec![vec!["bin", "java.exe"], vec!["java.exe"]],
            _ => vec![vec!["bin", "java"], vec!["Contents", "Home", "bin", "java"]],
        };
        proof {
            assert(layout_views(r@) =~~= self.layouts());
        }
        r
    }

    /// Gives the file name of the runtime's executable.
    pub fn exe_name(self) -> (r: &'static str)
        ensures
            r@ == self.executable_name(),
    {
        match self {
            PlatformConventions::WindowsLike => "java.exe",
            _ => "java",
        }
    }

    /// Gives the path separator.
    pub fn sep(self) -> (r: &'static str)
        ensures
            r@ == self.separator(),
    {
        match self {
            PlatformConventions::WindowsLike => "\\",
            _ => "/",
        }
    }

    /// Gives the name of the locator utility.
    pub fn locator(self) -> (r: &'static str)
        ensures
            r@ == self.locator_name(),
    {
        match self {
            PlatformConventions::WindowsLike => "where",
            _ => "which",
        }
    }

    /// Forms the path of the executable below an installation's home.
    pub fn java_exe_under(self, home: &str) -> (r: String)
        ensures
            r@ == self.home_executable(home@),
    {
        let mut path = String::from_str(home);
        path.append(self.sep());
        path.append("bin");
        path.append(self.sep());
        path.append(self.exe_name());
        path
    }
}

} // verus!
