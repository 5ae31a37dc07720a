use cport::docker::{trim_split, PsEntry, RawPsEntry};

#[test]
fn trim_split_drops_quotes_space_and_empty_pieces() {
    assert_eq!(trim_split("\"a,b,,c\"", ','), vec!["a", "b", "c"]);
    assert_eq!(trim_split("  x y  z ", ' '), vec!["x", "y", "z"]);
    assert_eq!(trim_split("\"\"", ','), Vec::<String>::new());
    assert_eq!(trim_split("", ','), Vec::<String>::new());
    assert_eq!(trim_split(",,", ','), Vec::<String>::new());
    assert_eq!(trim_split("\" \tone\u{3000}\"", ','), vec!["one"]);
    assert_eq!(trim_split("a, b", ','), vec!["a", " b"]);
}

#[test]
fn from_raw_splits_fields() {
    let raw = RawPsEntry {
        command: "\"bash -c  true\"".to_string(),
        mounts: "/proj,/data".to_string(),
        names: "builder".to_string(),
        id: "abc123".to_string(),
        image: "debian".to_string(),
        labels: "cport.image=debian,cport.source=/proj,cport.build=_cport".to_string(),
    };
    let e = PsEntry::from_raw(raw);
    assert_eq!(e.command, vec!["bash", "-c", "true"]);
    assert_eq!(e.mounts, vec!["/proj", "/data"]);
    assert_eq!(e.name, "builder");
    assert_eq!(e.id, "abc123");
    assert_eq!(e.image, "debian");
    assert_eq!(
        e.labels,
        vec!["cport.image=debian", "cport.source=/proj", "cport.build=_cport"]
    );
}
