//! Where the settings file lies.

use vstd::prelude::*;

verus! {

/// The platforms that differ in where user settings lie.
#[derive(Clone, Copy, PartialEq, Eq, Structural, Debug)]
pub enum Platform {
    Windows,
    MacOs,
    /// Linux, BSD and other Unix.
    Unix,
    Other,
}

/// A directory that the environment names.
#[derive(Clone, Copy, PartialEq, Eq, Structural, Debug)]
pub enum BaseDir {
    /// `%APPDATA%`
    AppData,
    /// `$HOME`
    Home,
    /// `$XDG_CONFIG_HOME`
    XdgConfigHome,
    /// The system temp directory.
    Temp,
}

/// Which of the variables the environment has.
#[derive(Clone, Copy, PartialEq, Eq, Structural, Debug)]
pub struct Environment {
    pub appdata: bool,
    pub home: bool,
    pub xdg_config_home: bool,
}

/// A path: a directory of the environment and the names below it.
pub struct ConfigPath {
    pub base: BaseDir,
    pub names: Vec<&'static str>,
}

/// The texts of some names.
pub open spec fn name_texts(names: Seq<&'static str>) -> Seq<Seq<char>> {
    names.map_values(|s: &'static str| s@)
}

impl View for ConfigPath {
    type V = (BaseDir, Seq<Seq<char>>);

    open spec fn view(&self) -> (BaseDir, Seq<Seq<char>>) {
        (self.base, name_texts(self.names@))
    }
}

/// The user's settings directory. Where the environment does not name it, the temp
/// directory takes its place.
pub open spec fn settings_dir(platform: Platform, env: Environment) -> (BaseDir, Seq<Seq<char>>) {
    match platform {
        Platform::Windows => if env.appdata {
            (BaseDir::AppData, Seq::empty())
        } else {
            (BaseDir::Temp, Seq::empty())
        },
        Platform::MacOs => if env.home {
            (BaseDir::Home, seq!["Library"@, "Application Support"@])
        } else {
            (BaseDir::Temp, Seq::empty())
        },
        Platform::Unix => if env.xdg_config_home {
            (BaseDir::XdgConfigHome, Seq::empty())
        } else if env.home {
            (BaseDir::Home, seq![".config"@])
        } else {
            (BaseDir::Temp, Seq::empty())
        },
        Platform::Other => (BaseDir::Temp, Seq::empty()),
    }
}

/// The platform's user settings directory.
pub fn per_os_config_dir(platform: Platform, env: Environment) -> (r: ConfigPath)
    ensures
        r@ == settings_dir(platform, env),
{
    let mut names: Vec<&'static str> = Vec::new();
    let base = match platform {
        Platform::Windows => if env.appdata {
            BaseDir::AppData
        } else {
            BaseDir::Temp
        },
        Platform::MacOs => if env.home {
            names.push("Library");
            names.push("Application Support");
            BaseDir::Home
        } else {
            BaseDir::Temp
        },
        Platform::Unix => if env.xdg_config_home {
            BaseDir::XdgConfigHome
        } else if env.home {
            names.push(".config");
            BaseDir::Home
        } else {
            BaseDir::Temp
        },
        Platform::Other => BaseDir::Temp,
    };
    proof {
        assert(name_texts(names@) =~= settings_dir(platform, env).1);
    }
    ConfigPath { base, names }
}

/// The path of the settings file: `eqvis/config.txt` in the settings directory.
pub fn config_path(platform: Platform, env: Environment) -> (r: ConfigPath)
    ensures
        r@ == (
            settings_dir(platform, env).0,
            settings_dir(platform, env).1.push("eqvis"@).push("config.txt"@),
        ),
{
    let mut path = per_os_config_dir(platform, env);
    let ghost dir = path@;
    path.names.push("eqvis");
    path.names.push("config.txt");
    proof {
        assert(name_texts(path.names@) =~= dir.1.push("eqvis"@).push("config.txt"@));
    }
    path
}

/// The settings lie below a directory that the environment names, and in the temp directory
/// only where it names none that the platform uses. Windows uses its application data,
/// macOS the library of the home directory, other Unix the configured directory or
/// `.config` in the home directory.
pub proof fn law_settings_lie_where_the_environment_says(platform: Platform, env: Environment)
    ensures
        ({
            let (base, names) = settings_dir(platform, env);
            &&& base == BaseDir::AppData <==> platform == Platform::Windows && env.appdata
            &&& base == BaseDir::XdgConfigHome <==> platform == Platform::Unix
                && env.xdg_config_home
            &&& base == BaseDir::Home <==> env.home && (platform == Platform::MacOs || (platform
                == Platform::Unix && !env.xdg_config_home))
            &&& base == BaseDir::Temp <==> match platform {
                Platform::Windows => !env.appdata,
                Platform::MacOs => !env.home,
                Platform::Unix => !env.xdg_config_home && !env.home,
                Platform::Other => true,
            }
            &&& base != BaseDir::Home ==> names.len() == 0
            &&& base == BaseDir::Home && platform == Platform::Unix ==> names.len() == 1 && names[0]
                == ".config"@
            &&& base == BaseDir::Home && platform == Platform::MacOs ==> names.len() == 2
                && names[0] == "Library"@ && names[1] == "Application Support"@
        }),
{
}

} // verus!
