use vstd::prelude::*;

verus! {

/// Settings of the `cport` section of the configuration file.
pub struct CPort {
    /// Container image.
    pub image: String,
    /// Packages installed before building.
    pub apt: Option<Vec<String>>,
}

/// Settings of the `cmake` section of the configuration file.
pub struct CMake {
    /// Generator handed to `-G`.
    pub generator: Option<String>,
    /// Build directory, relative to the source directory.
    pub build: Option<String>,
    /// Cache entries handed to `-D{key}={value}`.
    pub option: Option<Vec<(String, String)>>,
}

/// The configuration file as read, before defaults are applied.
pub struct ParsedConfigure {
    /// Directory of the root `CMakeLists.txt`.
    pub source: Option<String>,
    pub cport: CPort,
    pub cmake: CMake,
}

/// Normalized, flattened configuration of one build.
#[derive(Debug, Clone, PartialEq)]
pub struct Configure {
    /// Absolute path of the directory holding the root `CMakeLists.txt`.
    pub source: String,
    /// Container image.
    pub image: String,
    /// Packages installed before building, in the order given.
    pub apt: Vec<String>,
    /// Generator handed to `-G`.
    pub generator: String,
    /// Build directory, relative to `source`.
    pub build: String,
    /// Cache entries handed to `-D{key}={value}`, in a fixed order.
    pub option: Vec<(String, String)>,
}

/// What a configuration says, as plain sequences of characters.
pub struct ConfigView {
    pub source: Seq<char>,
    pub image: Seq<char>,
    pub apt: Seq<Seq<char>>,
    pub generator: Seq<char>,
    pub build: Seq<char>,
    pub option: Seq<(Seq<char>, Seq<char>)>,
}

impl View for Configure {
    type V = ConfigView;

    open spec fn view(&self) -> ConfigView {
        ConfigView {
            source: self.source@,
            image: self.image@,
            apt: self.apt.deep_view(),
            generator: self.generator@,
            build: self.build@,
            option: self.option.deep_view(),
        }
    }
}

/// Generator used when the file names none.
pub open spec fn default_generator() -> Seq<char> {
    "Ninja"@
}

/// Build directory used when the file names none.
pub open spec fn default_build_dir() -> Seq<char> {
    "_cport"@
}

impl ParsedConfigure {
    /// Applies the defaults: no packages, the `Ninja` generator, the `_cport`
    /// build directory and no cache entries.
    pub fn normalize(self) -> (r: Configure)
        requires
            self.source is Some,
        ensures
            r.source == self.source->0,
            r.image == self.cport.image,
            self.cport.apt is Some ==> r.apt == self.cport.apt->0,
            self.cport.apt is None ==> r.apt@.len() == 0,
            self.cmake.generator is Some ==> r.generator == self.cmake.generator->0,
            self.cmake.generator is None ==> r.generator@ == default_generator(),
            self.cmake.build is Some ==> r.build == self.cmake.build->0,
            self.cmake.build is None ==> r.build@ == default_build_dir(),
            self.cmake.option is Some ==> r.option == self.cmake.option->0,
            self.cmake.option is None ==> r.option@.len() == 0,
    {
        let source = self.source.unwrap();
        let apt = match self.cport.apt {
            Some(v) => v,
            None => Vec::new(),
        };
        let generator = match self.cmake.generator {
            Some(g) => g,
            None => String::from_str("Ninja"),
        };
        let build = match self.cmake.build {
            Some(b) => b,
            None => String::from_str("_cport"),
        };
        let option = match self.cmake.option {
            Some(o) => o,
            None => Vec::new(),
        };
        Configure { source, image: self.cport.image, apt, generator, build, option }
    }
}

} // verus!
