use cport::cmake::{
    build_args, configure_args, install_args, join_path, phase_commands, update_args, BuildPhase,
    CMakeArgBuilder,
};
use cport::config::{CMake, CPort, Configure, ParsedConfigure};

fn s(x: &str) -> String {
    x.to_string()
}

fn sample() -> Configure {
    Configure {
        source: s("/proj"),
        image: s("debian"),
        apt: vec![s("libboost-dev"), s("ninja-build")],
        generator: s("Ninja"),
        build: s("_cport"),
        option: vec![(s("CMAKE_BUILD_TYPE"), s("Release"))],
    }
}

#[test]
fn configure_args_of_fresh_build() {
    assert_eq!(
        configure_args(&sample()),
        vec!["cmake", "-B/proj/_cport", "-H/proj", "-GNinja", "-DCMAKE_BUILD_TYPE=Release"]
    );
}

#[test]
fn build_args_of_fresh_build() {
    assert_eq!(build_args(&sample()), vec!["cmake", "--build", "/proj/_cport"]);
}

#[test]
fn configure_args_twice_are_identical() {
    let cfg = sample();
    assert_eq!(configure_args(&cfg), configure_args(&cfg));
}

#[test]
fn option_order_moves_only_the_flags() {
    let mut a = sample();
    a.option = vec![(s("A"), s("1")), (s("B"), s("2")), (s("C"), s("x=y"))];
    let mut b = sample();
    b.option = vec![(s("C"), s("x=y")), (s("A"), s("1")), (s("B"), s("2"))];
    let ra = configure_args(&a);
    let rb = configure_args(&b);
    assert_eq!(ra[..4], rb[..4]);
    let mut fa: Vec<String> = ra[4..].to_vec();
    let mut fb: Vec<String> = rb[4..].to_vec();
    fa.sort();
    fb.sort();
    assert_eq!(fa, vec!["-DA=1", "-DB=2", "-DC=x=y"]);
    assert_eq!(fa, fb);
}

#[test]
fn no_options_gives_four_arguments() {
    let mut cfg = sample();
    cfg.option = vec![];
    cfg.generator = s("Unix Makefiles");
    assert_eq!(
        configure_args(&cfg),
        vec!["cmake", "-B/proj/_cport", "-H/proj", "-GUnix Makefiles"]
    );
}

#[test]
fn provision_commands_keep_package_order() {
    let cfg = sample();
    assert_eq!(update_args(), vec!["apt", "update"]);
    assert_eq!(install_args(&cfg), vec!["apt", "install", "-y", "libboost-dev", "ninja-build"]);
    let cmds = phase_commands(BuildPhase::Provision, &cfg);
    assert_eq!(cmds.len(), 2);
    assert_eq!(cmds[0], update_args());
    assert_eq!(cmds[1], install_args(&cfg));
    assert_eq!(phase_commands(BuildPhase::Configure, &cfg), vec![configure_args(&cfg)]);
    assert_eq!(phase_commands(BuildPhase::Build, &cfg), vec![build_args(&cfg)]);
}

#[test]
fn install_without_packages() {
    let mut cfg = sample();
    cfg.apt = vec![];
    assert_eq!(install_args(&cfg), vec!["apt", "install", "-y"]);
}

#[test]
fn join_path_cases() {
    assert_eq!(join_path("/proj", "_cport"), "/proj/_cport");
    assert_eq!(join_path("/proj/", "_cport"), "/proj/_cport");
    assert_eq!(join_path("/proj", "/abs/build"), "/abs/build");
    assert_eq!(join_path("", "rel"), "rel");
    assert_eq!(join_path("/proj", ""), "/proj/");
    assert_eq!(join_path("/pröj", "bü"), "/pröj/bü");
}

#[test]
fn builder_chains() {
    let mut b = CMakeArgBuilder::new();
    b.build_dir("/p/b").source_dir("/p").generator("Ninja");
    b.option(&vec![(s("K"), s("V"))]);
    assert_eq!(b.get_args(), vec!["cmake", "-B/p/b", "-H/p", "-GNinja", "-DK=V"]);
    let mut c = CMakeArgBuilder::new();
    c.build_mode("/p/b");
    assert_eq!(c.get_args(), vec!["cmake", "--build", "/p/b"]);
}

#[test]
fn normalize_applies_defaults() {
    let parsed = ParsedConfigure {
        source: Some(s("/proj")),
        cport: CPort { image: s("debian"), apt: None },
        cmake: CMake { generator: None, build: None, option: None },
    };
    let cfg = parsed.normalize();
    assert_eq!(
        cfg,
        Configure {
            source: s("/proj"),
            image: s("debian"),
            apt: vec![],
            generator: s("Ninja"),
            build: s("_cport"),
            option: vec![],
        }
    );
}

#[test]
fn normalize_keeps_given_values() {
    let parsed = ParsedConfigure {
        source: Some(s("/src")),
        cport: CPort { image: s("ubuntu"), apt: Some(vec![s("libboost-dev")]) },
        cmake: CMake {
            generator: Some(s("Unix Makefiles")),
            build: Some(s("out")),
            option: Some(vec![(s("CMAKE_EXPORT_COMPILE_COMMANDS"), s("ON"))]),
        },
    };
    let cfg = parsed.normalize();
    assert_eq!(cfg.source, "/src");
    assert_eq!(cfg.image, "ubuntu");
    assert_eq!(cfg.apt, vec!["libboost-dev"]);
    assert_eq!(cfg.generator, "Unix Makefiles");
    assert_eq!(cfg.build, "out");
    assert_eq!(cfg.option, vec![(s("CMAKE_EXPORT_COMPILE_COMMANDS"), s("ON"))]);
}
