use vstd::prelude::*;
use crate::config::{ConfigView, Configure};

verus! {

/// Labels that the build container of a configuration carries, and by which
/// it is found again: image, source directory and build directory.
pub open spec fn identity_labels(c: ConfigView) -> Seq<(Seq<char>, Seq<char>)> {
    seq![("cport.image"@, c.image), ("cport.source"@, c.source), ("cport.build"@, c.build)]
}

/// Whether two configurations name the same build container.
pub open spec fn same_identity(c1: ConfigView, c2: ConfigView) -> bool {
    c1.image == c2.image && c1.source == c2.source && c1.build == c2.build
}

/// What the runtime is asked to create.
pub struct CreateRequest {
    /// Image of the container.
    pub image: String,
    /// Bind mounts, `{host path}:{container path}`.
    pub volumes: Vec<String>,
    /// Whether a pseudo-terminal is allocated.
    pub tty: bool,
    /// Labels of the container.
    pub labels: Vec<(String, String)>,
    /// Whether the container is removed when it stops.
    pub auto_remove: bool,
}

/// A creation request as plain values.
pub struct CreateView {
    pub image: Seq<char>,
    pub volumes: Seq<Seq<char>>,
    pub tty: bool,
    pub labels: Seq<(Seq<char>, Seq<char>)>,
    pub auto_remove: bool,
}

impl View for CreateRequest {
    type V = CreateView;

    open spec fn view(&self) -> CreateView {
        CreateView {
            image: self.image@,
            volumes: self.volumes.deep_view(),
            tty: self.tty,
            labels: self.labels.deep_view(),
            auto_remove: self.auto_remove,
        }
    }
}

/// The container made for a configuration: its image, the source directory
/// mounted at the same path inside, a terminal, the identity labels, and kept
/// when it stops.
pub open spec fn create_request_of(c: ConfigView) -> CreateView {
    CreateView {
        image: c.image,
        volumes: seq![c.source + ":"@ + c.source],
        tty: true,
        labels: identity_labels(c),
        auto_remove: false,
    }
}

/// The identity labels of a configuration.
pub fn labels(cfg: &Configure) -> (r: Vec<(String, String)>)
    ensures
        r.deep_view() == identity_labels(cfg@),
{
    let mut v: Vec<(String, String)> = Vec::new();
    v.push((String::from_str("cport.image"), cfg.image.clone()));
    v.push((String::from_str("cport.source"), cfg.source.clone()));
    v.push((String::from_str("cport.build"), cfg.build.clone()));
    proof {
        assert(v.deep_view() =~= identity_labels(cfg@));
    }
    v
}

/// The request that creates the build container of a configuration.
pub fn create_request(cfg: &Configure) -> (r: CreateRequest)
    ensures
        r@ == create_request_of(cfg@),
{
    let mut volumes: Vec<String> = Vec::new();
    let bind = cfg.source.clone().concat(":").concat(cfg.source.as_str());
    volumes.push(bind);
    proof {
        assert(volumes.deep_view() =~= seq![cfg@.source + ":"@ + cfg@.source]);
    }
    CreateRequest {
        image: cfg.image.clone(),
        volumes,
        tty: true,
        labels: labels(cfg),
        auto_remove: false,
    }
}

/// A container as the runtime keeps it: its handle and its labels.
pub struct ContainerEntry {
    pub id: Seq<char>,
    pub labels: Seq<(Seq<char>, Seq<char>)>,
}

/// Whether `labels` holds the pair `kv`.
pub open spec fn has_label(labels: Seq<(Seq<char>, Seq<char>)>, kv: (Seq<char>, Seq<char>)) -> bool {
    exists|i: int| 0 <= i < labels.len() && labels[i] == kv
}

/// Whether `labels` holds every pair of `filter`.
pub open spec fn matches_filter(
    labels: Seq<(Seq<char>, Seq<char>)>,
    filter: Seq<(Seq<char>, Seq<char>)>,
) -> bool {
    forall|j: int| 0 <= j < filter.len() ==> has_label(labels, #[trigger] filter[j])
}

/// Handles of the containers of `rt` whose labels match `filter`, in the
/// runtime's order: what a listing of all containers with a label filter
/// returns.
pub open spec fn listed(rt: Seq<ContainerEntry>, filter: Seq<(Seq<char>, Seq<char>)>) -> Seq<
    Seq<char>,
>
    decreases rt.len(),
{
    if rt.len() == 0 {
        Seq::empty()
    } else {
        let front = listed(rt.drop_last(), filter);
        if matches_filter(rt.last().labels, filter) {
            front.push(rt.last().id)
        } else {
            front
        }
    }
}

proof fn lemma_listed_none(rt: Seq<ContainerEntry>, filter: Seq<(Seq<char>, Seq<char>)>)
    requires
        listed(rt, filter).len() == 0,
    ensures
        forall|i: int| 0 <= i < rt.len() ==> !matches_filter(#[trigger] rt[i].labels, filter),
    decreases rt.len(),
{
    if rt.len() > 0 {
        lemma_listed_none(rt.drop_last(), filter);
        assert forall|i: int| 0 <= i < rt.len() implies !matches_filter(
            #[trigger] rt[i].labels,
            filter,
        ) by {
            if i < rt.len() - 1 {
                assert(rt.drop_last()[i] == rt[i]);
            }
        }
    }
}

proof fn lemma_listed_insert(
    rt: Seq<ContainerEntry>,
    filter: Seq<(Seq<char>, Seq<char>)>,
    at: int,
    x: ContainerEntry,
)
    requires
        0 <= at <= rt.len(),
    ensures
        !matches_filter(x.labels, filter) ==> listed(rt.insert(at, x), filter) == listed(
            rt,
            filter,
        ),
        matches_filter(x.labels, filter) && listed(rt, filter).len() == 0 ==> listed(
            rt.insert(at, x),
            filter,
        ) == seq![x.id],
    decreases rt.len(),
{
    let rt2 = rt.insert(at, x);
    if at == rt.len() {
        assert(rt2.drop_last() =~= rt);
        assert(rt2.last() == x);
        if matches_filter(x.labels, filter) && listed(rt, filter).len() == 0 {
            assert(listed(rt, filter) =~= Seq::<Seq<char>>::empty());
            assert(listed(rt2, filter) =~= seq![x.id]);
        }
    } else {
        assert(rt2.drop_last() =~= rt.drop_last().insert(at, x));
        assert(rt2.last() == rt.last());
        lemma_listed_insert(rt.drop_last(), filter, at, x);
        if matches_filter(x.labels, filter) && listed(rt, filter).len() == 0 {
            lemma_listed_none(rt, filter);
            assert(!matches_filter(rt[rt.len() - 1].labels, filter));
            assert(listed(rt.drop_last(), filter).len() == 0);
        }
    }
}

proof fn lemma_own_labels_match(c: ConfigView)
    ensures
        matches_filter(identity_labels(c), identity_labels(c)),
{
    let l = identity_labels(c);
    assert forall|j: int| 0 <= j < l.len() implies has_label(l, #[trigger] l[j]) by {}
}

proof fn lemma_label_keys_distinct()
    ensures
        "cport.image"@ != "cport.source"@,
        "cport.image"@ != "cport.build"@,
        "cport.source"@ != "cport.build"@,
{
    reveal_strlit("cport.image");
    reveal_strlit("cport.source");
    reveal_strlit("cport.build");
    assert("cport.image"@.len() != "cport.source"@.len());
    assert("cport.image"@[6] != "cport.build"@[6]);
    assert("cport.source"@.len() != "cport.build"@.len());
}

/// Two configurations that differ in image, source directory or build
/// directory never see each other's container: the container made for the
/// first is not listed when the runtime is asked for the second.
pub proof fn lemma_identity_isolation(
    c1: ConfigView,
    c2: ConfigView,
    rt: Seq<ContainerEntry>,
    at: int,
    new_id: Seq<char>,
)
    requires
        !same_identity(c1, c2),
        0 <= at <= rt.len(),
    ensures
        !matches_filter(create_request_of(c1).labels, identity_labels(c2)),
        listed(
            rt.insert(at, ContainerEntry { id: new_id, labels: create_request_of(c1).labels }),
            identity_labels(c2),
        ) == listed(rt, identity_labels(c2)),
{
    lemma_label_keys_distinct();
    let l1 = identity_labels(c1);
    let f2 = identity_labels(c2);
    if c1.image != c2.image {
        assert(!has_label(l1, f2[0]));
    } else if c1.source != c2.source {
        assert(!has_label(l1, f2[1]));
    } else {
        assert(!has_label(l1, f2[2]));
    }
    lemma_listed_insert(
        rt,
        f2,
        at,
        ContainerEntry { id: new_id, labels: create_request_of(c1).labels },
    );
}

/// Find-or-create is idempotent: once a configuration has adopted the first
/// listed container, or created one where none was listed, a configuration
/// with the same identity lists that same container first, so it adopts it
/// and asks for no creation.
pub proof fn lemma_adoption_idempotent(
    c1: ConfigView,
    c2: ConfigView,
    rt: Seq<ContainerEntry>,
    at: int,
    new_id: Seq<char>,
)
    requires
        same_identity(c1, c2),
        0 <= at <= rt.len(),
    ensures
        ({
            let found1 = listed(rt, identity_labels(c1));
            let handle1 = if found1.len() > 0 {
                found1[0]
            } else {
                new_id
            };
            let rt1 = if found1.len() > 0 {
                rt
            } else {
                rt.insert(at, ContainerEntry { id: new_id, labels: create_request_of(c1).labels })
            };
            let found2 = listed(rt1, identity_labels(c2));
            found2.len() > 0 && found2[0] == handle1
        }),
{
    assert(identity_labels(c1) =~= identity_labels(c2));
    let found1 = listed(rt, identity_labels(c1));
    if found1.len() == 0 {
        lemma_own_labels_match(c1);
        lemma_listed_insert(
            rt,
            identity_labels(c1),
            at,
            ContainerEntry { id: new_id, labels: create_request_of(c1).labels },
        );
    }
}

} // verus!
