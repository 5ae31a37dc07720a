use vstd::prelude::*;
use crate::config::{ConfigView, Configure};

verus! {

/// `base` joined with `rel` the way a Unix path is extended: an absolute
/// `rel` replaces `base`, and a separator is put between them when `base`
/// is non-empty and does not end in one.
pub open spec fn joined(base: Seq<char>, rel: Seq<char>) -> Seq<char> {
    if rel.len() > 0 && rel[0] == '/' {
        rel
    } else if base.len() == 0 || base.last() == '/' {
        base + rel
    } else {
        base + "/"@ + rel
    }
}

/// Absolute path of the build directory of a configuration.
pub open spec fn build_dir_of(c: ConfigView) -> Seq<char> {
    joined(c.source, c.build)
}

/// The `-D{key}={value}` flag of one cache entry.
pub open spec fn option_flag(kv: (Seq<char>, Seq<char>)) -> Seq<char> {
    "-D"@ + kv.0 + "="@ + kv.1
}

/// The `-D` flags of a list of cache entries, in the list's order.
pub open spec fn option_flags(opts: Seq<(Seq<char>, Seq<char>)>) -> Seq<Seq<char>> {
    opts.map_values(|kv: (Seq<char>, Seq<char>)| option_flag(kv))
}

/// Command line of the configure step.
pub open spec fn configure_command(c: ConfigView) -> Seq<Seq<char>> {
    seq!["cmake"@, "-B"@ + build_dir_of(c), "-H"@ + c.source, "-G"@ + c.generator]
        + option_flags(c.option)
}

/// Command line of the compile step.
pub open spec fn build_command(c: ConfigView) -> Seq<Seq<char>> {
    seq!["cmake"@, "--build"@, build_dir_of(c)]
}

/// Command line that refreshes the package index.
pub open spec fn update_command() -> Seq<Seq<char>> {
    seq!["apt"@, "update"@]
}

/// Command line that installs the configured packages.
pub open spec fn install_command(c: ConfigView) -> Seq<Seq<char>> {
    seq!["apt"@, "install"@, "-y"@] + c.apt
}

/// The configure command depends on the configuration alone, and the order
/// of the cache entries only moves the `-D` flags: two configurations that
/// agree on source, build directory and generator, and hold the same cache
/// entries in any order, give the same first four arguments and the same set
/// of `-D` flags, which are exactly the flags of their entries.
pub proof fn lemma_configure_args_deterministic(c1: ConfigView, c2: ConfigView)
    requires
        c1.source == c2.source,
        c1.build == c2.build,
        c1.generator == c2.generator,
        forall|kv: (Seq<char>, Seq<char>)| c1.option.contains(kv) <==> c2.option.contains(kv),
    ensures
        configure_command(c1).take(4) == configure_command(c2).take(4),
        configure_command(c1).skip(4).to_set() == configure_command(c2).skip(4).to_set(),
        forall|f: Seq<char>|
            configure_command(c1).skip(4).contains(f) <==> exists|kv: (Seq<char>, Seq<char>)|
                c1.option.contains(kv) && f == option_flag(kv),
{
    let a1 = configure_command(c1);
    let a2 = configure_command(c2);
    assert(a1.take(4) =~= a2.take(4));
    assert(a1.skip(4) =~= option_flags(c1.option));
    assert(a2.skip(4) =~= option_flags(c2.option));
    assert forall|f: Seq<char>|
        option_flags(c1.option).contains(f) <==> exists|kv: (Seq<char>, Seq<char>)|
            c1.option.contains(kv) && f == option_flag(kv) by {
        if option_flags(c1.option).contains(f) {
            let i = choose|i: int|
                0 <= i < option_flags(c1.option).len() && option_flags(c1.option)[i] == f;
            assert(c1.option.contains(c1.option[i]));
        }
        if exists|kv: (Seq<char>, Seq<char>)| c1.option.contains(kv) && f == option_flag(kv) {
            let kv = choose|kv: (Seq<char>, Seq<char>)|
                c1.option.contains(kv) && f == option_flag(kv);
            let i = choose|i: int| 0 <= i < c1.option.len() && c1.option[i] == kv;
            assert(option_flags(c1.option)[i] == f);
        }
    }
    assert forall|f: Seq<char>|
        option_flags(c2.option).contains(f) <==> exists|kv: (Seq<char>, Seq<char>)|
            c2.option.contains(kv) && f == option_flag(kv) by {
        if option_flags(c2.option).contains(f) {
            let i = choose|i: int|
                0 <= i < option_flags(c2.option).len() && option_flags(c2.option)[i] == f;
            assert(c2.option.contains(c2.option[i]));
        }
        if exists|kv: (Seq<char>, Seq<char>)| c2.option.contains(kv) && f == option_flag(kv) {
            let kv = choose|kv: (Seq<char>, Seq<char>)|
                c2.option.contains(kv) && f == option_flag(kv);
            let i = choose|i: int| 0 <= i < c2.option.len() && c2.option[i] == kv;
            assert(option_flags(c2.option)[i] == f);
        }
    }
    assert(a1.skip(4).to_set() =~= a2.skip(4).to_set());
}

/// A step of the build that runs commands inside the container.
#[derive(Debug, Clone, Copy, PartialEq, Eq)]
pub enum BuildPhase {
    /// Install packages.
    Provision,
    /// Generate the build files.
    Configure,
    /// Compile.
    Build,
}

/// The commands that a phase runs, one after the other.
pub open spec fn phase_commands_of(phase: BuildPhase, c: ConfigView) -> Seq<Seq<Seq<char>>> {
    match phase {
        BuildPhase::Provision => seq![update_command(), install_command(c)],
        BuildPhase::Configure => seq![configure_command(c)],
        BuildPhase::Build => seq![build_command(c)],
    }
}

/// Joins a relative path onto a directory.
pub fn join_path(base: &str, rel: &str) -> (r: String)
    ensures
        r@ == joined(base@, rel@),
{
    let rn = rel.unicode_len();
    if rn > 0 && rel.get_char(0) == '/' {
        return String::from_str(rel);
    }
    let bn = base.unicode_len();
    if bn == 0 || base.get_char(bn - 1) == '/' {
        String::from_str(base).concat(rel)
    } else {
        String::from_str(base).concat("/").concat(rel)
    }
}

/// Accumulates the command line of a `cmake` invocation.
pub struct CMakeArgBuilder {
    params: Vec<String>,
}

impl View for CMakeArgBuilder {
    type V = Seq<Seq<char>>;

    closed spec fn view(&self) -> Seq<Seq<char>> {
        self.params.deep_view()
    }
}

impl CMakeArgBuilder {
    /// A command line that holds the program name alone.
    pub fn new() -> (r: Self)
        ensures
            r@ == seq!["cmake"@],
    {
        let mut params: Vec<String> = Vec::new();
        params.push(String::from_str("cmake"));
        proof {
            assert(params.deep_view() =~= seq!["cmake"@]);
        }
        CMakeArgBuilder { params }
    }

    /// The command line built so far.
    pub fn get_args(&self) -> (r: Vec<&str>)
        ensures
            r.deep_view() == self@,
    {
        let mut out: Vec<&str> = Vec::new();
        let mut i: usize = 0;
        while i < self.params.len()
            invariant
                i <= self.params@.len(),
                out.deep_view() =~= self@.take(i as int),
            decreases self.params@.len() - i,
        {
            let ghost prev = out.deep_view();
            out.push(self.params[i].as_str());
            proof {
                assert(out.deep_view() =~= prev.push(self@[i as int]));
                assert(self@.take(i + 1) =~= self@.take(i as int).push(self@[i as int]));
            }
            i = i + 1;
        }
        proof {
            assert(self@.take(i as int) =~= self@);
        }
        out
    }

    fn push_flag(&mut self, flag: &str, value: &str)
        ensures
            final(self)@ == old(self)@.push(flag@ + value@),
    {
        self.params.push(String::from_str(flag).concat(value));
        proof {
            assert(final(self)@ =~= old(self)@.push(flag@ + value@));
        }
    }

    /// Appends `-B{dir}`.
    pub fn build_dir(&mut self, dir: &str) -> (r: &mut Self)
        ensures
            *final(self) == *final(r),
            r@ == old(self)@.push("-B"@ + dir@),
    {
        self.push_flag("-B", dir);
        self
    }

    /// Appends `-H{dir}`.
    pub fn source_dir(&mut self, dir: &str) -> (r: &mut Self)
        ensures
            *final(self) == *final(r),
            r@ == old(self)@.push("-H"@ + dir@),
    {
        self.push_flag("-H", dir);
        self
    }

    /// Appends `-G{gen}`.
    pub fn generator(&mut self, gen: &str) -> (r: &mut Self)
        ensures
            *final(self) == *final(r),
            r@ == old(self)@.push("-G"@ + gen@),
    {
        self.push_flag("-G", gen);
        self
    }

    /// Appends `-D{key}={value}` for each entry, in the order given.
    pub fn option(&mut self, opt: &Vec<(String, String)>) -> (r: &mut Self)
        ensures
            *final(self) == *final(r),
            r@ == old(self)@ + option_flags(opt.deep_view()),
    {
        let ghost start = self@;
        let mut i: usize = 0;
        while i < opt.len()
            invariant
                i <= opt@.len(),
                self@ =~= start + option_flags(opt.deep_view().take(i as int)),
            decreases opt@.len() - i,
        {
            let key = &opt[i].0;
            let value = &opt[i].1;
            let flag = String::from_str("-D").concat(key.as_str()).concat("=").concat(
                value.as_str(),
            );
            let ghost prev = self@;
            self.params.push(flag);
            proof {
                assert(self@ =~= prev.push(flag@));
                let dv = opt.deep_view();
                assert(dv.take(i + 1) =~= dv.take(i as int).push(dv[i as int]));
                assert(option_flags(dv.take(i + 1)) =~= option_flags(dv.take(i as int)).push(
                    option_flag(dv[i as int]),
                ));
            }
            i = i + 1;
        }
        proof {
            assert(opt.deep_view().take(i as int) =~= opt.deep_view());
        }
        self
    }

    /// Appends `--build {build_dir}`.
    pub fn build_mode(&mut self, build_dir: &str) -> (r: &mut Self)
        ensures
            *final(self) == *final(r),
            r@ == old(self)@.push("--build"@).push(build_dir@),
    {
        self.params.push(String::from_str("--build"));
        self.params.push(String::from_str(build_dir));
        proof {
            assert(self@ =~= old(self)@.push("--build"@).push(build_dir@));
        }
        self
    }
}

/// Copies a list of strings.
fn clone_strings(v: &Vec<String>) -> (r: Vec<String>)
    ensures
        r.deep_view() == v.deep_view(),
{
    let mut out: Vec<String> = Vec::new();
    let mut i: usize = 0;
    while i < v.len()
        invariant
            i <= v@.len(),
            out.deep_view() =~= v.deep_view().take(i as int),
        decreases v@.len() - i,
    {
        let ghost prev = out.deep_view();
        out.push(v[i].clone());
        proof {
            assert(out.deep_view() =~= prev.push(v.deep_view()[i as int]));
            assert(v.deep_view().take(i + 1) =~= v.deep_view().take(i as int).push(
                v.deep_view()[i as int],
            ));
        }
        i = i + 1;
    }
    proof {
        assert(v.deep_view().take(i as int) =~= v.deep_view());
    }
    out
}

/// Command line of the configure step:
/// `cmake -B{build dir} -H{source} -G{generator} -D{key}={value}...`.
pub fn configure_args(cfg: &Configure) -> (r: Vec<String>)
    ensures
        r.deep_view() == configure_command(cfg@),
{
    let build_dir = join_path(cfg.source.as_str(), cfg.build.as_str());
    let mut b = CMakeArgBuilder::new();
    b.build_dir(build_dir.as_str());
    b.source_dir(cfg.source.as_str());
    b.generator(cfg.generator.as_str());
    b.option(&cfg.option);
    proof {
        assert(b@ =~= configure_command(cfg@));
    }
    b.params
}

/// Command line of the compile step: `cmake --build {build dir}`.
pub fn build_args(cfg: &Configure) -> (r: Vec<String>)
    ensures
        r.deep_view() == build_command(cfg@),
{
    let build_dir = join_path(cfg.source.as_str(), cfg.build.as_str());
    let mut b = CMakeArgBuilder::new();
    b.build_mode(build_dir.as_str());
    proof {
        assert(b@ =~= build_command(cfg@));
    }
    b.params
}

/// Command line that refreshes the package index: `apt update`.
pub fn update_args() -> (r: Vec<String>)
    ensures
        r.deep_view() == update_command(),
{
    let mut v: Vec<String> = Vec::new();
    v.push(String::from_str("apt"));
    v.push(String::from_str("update"));
    proof {
        assert(v.deep_view() =~= update_command());
    }
    v
}

/// Command line that installs the configured packages, in their order:
/// `apt install -y {package}...`.
pub fn install_args(cfg: &Configure) -> (r: Vec<String>)
    ensures
        r.deep_view() == install_command(cfg@),
{
    let mut v: Vec<String> = Vec::new();
    v.push(String::from_str("apt"));
    v.push(String::from_str("install"));
    v.push(String::from_str("-y"));
    let mut pkgs = clone_strings(&cfg.apt);
    let ghost head = v.deep_view();
    let ghost tail = pkgs.deep_view();
    v.append(&mut pkgs);
    proof {
        assert(head =~= seq!["apt"@, "install"@, "-y"@]);
        assert(v.deep_view() =~= head + tail);
    }
    v
}

/// The commands that a phase runs inside the container, in order.
pub fn phase_commands(phase: BuildPhase, cfg: &Configure) -> (r: Vec<Vec<String>>)
    ensures
        r.deep_view() == phase_commands_of(phase, cfg@),
{
    let mut cmds: Vec<Vec<String>> = Vec::new();
    match phase {
        BuildPhase::Provision => {
            cmds.push(update_args());
            cmds.push(install_args(cfg));
        },
        BuildPhase::Configure => {
            cmds.push(configure_args(cfg));
        },
        BuildPhase::Build => {
            cmds.push(build_args(cfg));
        },
    }
    proof {
        assert(cmds.deep_view() =~= phase_commands_of(phase, cfg@));
    }
    cmds
}

} // verus!
