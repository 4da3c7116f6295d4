//! Kubernetes-style deployments kept by the REST side: checking the
//! metadata of a submitted resource, and the store of deployments keyed by
//! manifest id, at most one per (namespace, name). Manifests are kept as
//! their serialized bytes; reading and writing JSON is the caller's part.
use vstd::prelude::*;

use crate::assoc::{
    keys_distinct, lemma_push, lemma_to_map_dom, lemma_to_map_value, lemma_update, to_map,
};
use crate::digest::spec_hash_three_strs;
use crate::rest::compute_manifest_id;
use crate::text::{hex_chars, str_eq};

verus! {

/// Why a submitted resource is refused (answered with 400 Bad Request).
#[derive(Debug, Clone, Copy, PartialEq, Eq, Structural)]
pub enum ResourceError {
    /// The resource names another kind.
    WrongKind,
    /// The resource names another API version.
    WrongApiVersion,
    /// The resource has no name.
    MissingName,
    /// The resource's namespace or name differs from the request path.
    PathMismatch,
}

/// The namespace and name a submitted resource is stored under, or why it
/// is refused: a kind or API version other than the expected one is
/// refused (a missing one counts as the expected one), a missing name is
/// refused, and a missing namespace is the namespace of the request path.
pub open spec fn resource_target(
    kind: Option<Seq<char>>,
    api_version: Option<Seq<char>>,
    name: Option<Seq<char>>,
    namespace: Option<Seq<char>>,
    namespace_from_path: Seq<char>,
    expected_kind: Seq<char>,
    expected_api_version: Seq<char>,
) -> Result<(Seq<char>, Seq<char>), ResourceError> {
    if kind matches Some(k) && k != expected_kind {
        Err(ResourceError::WrongKind)
    } else if api_version matches Some(v) && v != expected_api_version {
        Err(ResourceError::WrongApiVersion)
    } else {
        match name {
            None => Err(ResourceError::MissingName),
            Some(n) => Ok(
                (
                    match namespace {
                        Some(ns) => ns,
                        None => namespace_from_path,
                    },
                    n,
                ),
            ),
        }
    }
}

pub open spec fn opt_view(o: Option<&str>) -> Option<Seq<char>> {
    match o {
        Some(s) => Some(s@),
        None => None,
    }
}

/// Check the metadata of a submitted resource (its string-valued `kind`,
/// `apiVersion`, `metadata.name` and `metadata.namespace`) and give the
/// namespace and name it is stored under.
pub fn ensure_metadata(
    kind: Option<&str>,
    api_version: Option<&str>,
    name: Option<&str>,
    namespace: Option<&str>,
    namespace_from_path: &str,
    expected_kind: &str,
    expected_api_version: &str,
) -> (r: Result<(String, String), ResourceError>)
    ensures
        match resource_target(
            opt_view(kind),
            opt_view(api_version),
            opt_view(name),
            opt_view(namespace),
            namespace_from_path@,
            expected_kind@,
            expected_api_version@,
        ) {
            Ok((ns, n)) => r matches Ok((ns2, n2)) && ns2@ == ns && n2@ == n,
            Err(e) => r == Err::<(String, String), _>(e),
        },
{
    match kind {
        Some(k) => {
            if !str_eq(k, expected_kind) {
                return Err(ResourceError::WrongKind);
            }
        },
        None => {},
    }
    match api_version {
        Some(v) => {
            if !str_eq(v, expected_api_version) {
                return Err(ResourceError::WrongApiVersion);
            }
        },
        None => {},
    }
    let n = match name {
        Some(n) => n.to_owned(),
        None => return Err(ResourceError::MissingName),
    };
    let ns = match namespace {
        Some(ns) => ns.to_owned(),
        None => namespace_from_path.to_owned(),
    };
    Ok((ns, n))
}

/// An applied resource must be stored under the namespace and name of the
/// request path.
pub fn check_apply_target(ns: &str, name: &str, path_namespace: &str, path_name: &str) -> (r: Result<
    (),
    ResourceError,
>)
    ensures
        r is Ok <==> (ns@ == path_namespace@ && name@ == path_name@),
        r is Err ==> r == Err::<(), _>(ResourceError::PathMismatch),
{
    if !str_eq(ns, path_namespace) || !str_eq(name, path_name) {
        Err(ResourceError::PathMismatch)
    } else {
        Ok(())
    }
}

/// A stored deployment.
#[derive(Debug, Clone)]
pub struct Deployment {
    pub namespace: String,
    pub name: String,
    /// Raised by one on every update.
    pub resource_version: u64,
    /// The serialized manifest.
    pub manifest: Vec<u8>,
    /// When it was first created (seconds since the Unix epoch).
    pub creation_timestamp: u64,
    /// The operation id recorded at creation.
    pub last_operation_id: String,
}

/// Mathematical value of a [`Deployment`].
pub struct DeploymentView {
    pub namespace: Seq<char>,
    pub name: Seq<char>,
    pub resource_version: u64,
    pub manifest: Seq<u8>,
    pub creation_timestamp: u64,
    pub last_operation_id: Seq<char>,
}

impl View for Deployment {
    type V = DeploymentView;

    open spec fn view(&self) -> DeploymentView {
        DeploymentView {
            namespace: self.namespace@,
            name: self.name@,
            resource_version: self.resource_version,
            manifest: self.manifest@,
            creation_timestamp: self.creation_timestamp,
            last_operation_id: self.last_operation_id@,
        }
    }
}

/// The manifest id of a deployment: its hash of namespace, name and kind.
pub open spec fn deployment_id(namespace: Seq<char>, name: Seq<char>) -> Seq<char> {
    hex_chars(spec_hash_three_strs(namespace, name, "Deployment"@) as nat, 16)
}

/// The operation id recorded for a new deployment.
pub open spec fn deployment_operation_id(namespace: Seq<char>, name: Seq<char>) -> Seq<char> {
    "kube:apps/v1:Deployment:"@ + namespace + ":"@ + name
}

/// Whether the store has a deployment named `name` in `namespace`.
pub open spec fn has_deployment(
    m: Map<Seq<char>, DeploymentView>,
    namespace: Seq<char>,
    name: Seq<char>,
) -> bool {
    exists|id: Seq<char>| #[trigger] m.contains_key(id) && m[id].namespace == namespace && m[id].name == name
}

/// No two deployments share a namespace and name.
pub open spec fn names_unique(m: Map<Seq<char>, DeploymentView>) -> bool {
    forall|a: Seq<char>, b: Seq<char>|
        #[trigger] m.contains_key(a) && #[trigger] m.contains_key(b) && m[a].namespace == m[b].namespace
            && m[a].name == m[b].name ==> a == b
}

/// The deployments, by manifest id.
pub struct DeploymentStore {
    entries: Vec<(String, Deployment)>,
}

impl View for DeploymentStore {
    type V = Map<Seq<char>, DeploymentView>;

    closed spec fn view(&self) -> Map<Seq<char>, DeploymentView> {
        to_map(self.pairs())
    }
}

impl DeploymentStore {
    pub closed spec fn pairs(&self) -> Seq<(Seq<char>, DeploymentView)> {
        self.entries@.map_values(|e: (String, Deployment)| (e.0@, e.1@))
    }

    /// Ids are distinct and (namespace, name) pairs are distinct.
    pub closed spec fn wf(&self) -> bool {
        &&& keys_distinct(self.pairs())
        &&& forall|i: int, j: int|
            0 <= i < self.pairs().len() && 0 <= j < self.pairs().len() && i != j ==> (
            #[trigger] self.pairs()[i]).1.namespace != (#[trigger] self.pairs()[j]).1.namespace
                || self.pairs()[i].1.name != self.pairs()[j].1.name
    }

    /// An empty store.
    pub fn new() -> (s: Self)
        ensures
            s.wf(),
            s@ == Map::<Seq<char>, DeploymentView>::empty(),
    {
        let s = DeploymentStore { entries: Vec::new() };
        assert(s.pairs() =~= Seq::<(Seq<char>, DeploymentView)>::empty());
        assert(s@ =~= Map::<Seq<char>, DeploymentView>::empty());
        s
    }

    /// Position of the deployment named `name` in `namespace`, if any.
    fn find_named(&self, namespace: &str, name: &str) -> (r: Option<usize>)
        requires
            self.wf(),
        ensures
            match r {
                Some(i) => i < self.entries@.len() && self.pairs()[i as int].1.namespace
                    == namespace@ && self.pairs()[i as int].1.name == name@,
                None => !has_deployment(self@, namespace@, name@),
            },
    {
        let mut i: usize = 0;
        while i < self.entries.len()
            invariant
                i <= self.entries@.len(),
                forall|j: int|
                    0 <= j < i ==> #[trigger] self.pairs()[j].1.namespace != namespace@
                        || self.pairs()[j].1.name != name@,
            decreases self.entries@.len() - i,
        {
            if str_eq(self.entries[i].1.namespace.as_str(), namespace) && str_eq(
                self.entries[i].1.name.as_str(),
                name,
            ) {
                return Some(i);
            }
            i = i + 1;
        }
        proof {
            if has_deployment(self@, namespace@, name@) {
                let id = choose|id: Seq<char>|
                    #[trigger] self@.contains_key(id) && self@[id].namespace == namespace@
                        && self@[id].name == name@;
                lemma_to_map_dom(self.pairs(), id);
                let j = choose|j: int| 0 <= j < self.pairs().len() && #[trigger] self.pairs()[j].0 == id;
                lemma_to_map_value(self.pairs(), j);
                assert(self.pairs()[j].1.namespace == namespace@);
            }
        }
        None
    }

    fn find_id(&self, id: &str) -> (r: Option<usize>)
        requires
            self.wf(),
        ensures
            match r {
                Some(i) => i < self.entries@.len() && self.pairs()[i as int].0 == id@,
                None => !self@.contains_key(id@),
            },
    {
        let mut i: usize = 0;
        while i < self.entries.len()
            invariant
                i <= self.entries@.len(),
                forall|j: int| 0 <= j < i ==> self.pairs()[j].0 != id@,
            decreases self.entries@.len() - i,
        {
            if str_eq(self.entries[i].0.as_str(), id) {
                return Some(i);
            }
            i = i + 1;
        }
        proof {
            lemma_to_map_dom(self.pairs(), id@);
        }
        None
    }

    /// The deployment named `name` in `namespace`, with its manifest id.
    pub fn find_deployment(&self, namespace: &str, name: &str) -> (r: Option<(String, Deployment)>)
        requires
            self.wf(),
        ensures
            match r {
                Some((id, d)) => self@.contains_key(id@) && self@[id@] == d@ && d@.namespace
                    == namespace@ && d@.name == name@,
                None => !has_deployment(self@, namespace@, name@),
            },
    {
        match self.find_named(namespace, name) {
            Some(i) => {
                proof {
                    lemma_to_map_value(self.pairs(), i as int);
                }
                Some((self.entries[i].0.clone(), self.entries[i].1.clone_deployment()))
            },
            None => None,
        }
    }

    /// The deployments of `namespace`, with their manifest ids, in store
    /// order.
    pub fn list_deployments(&self, namespace: &str) -> (r: Vec<(String, Deployment)>)
        ensures
            r@.map_values(|e: (String, Deployment)| (e.0@, e.1@)) == self.pairs().filter(
                |p: (Seq<char>, DeploymentView)| p.1.namespace == namespace@,
            ),
    {
        let ghost keep = |p: (Seq<char>, DeploymentView)| p.1.namespace == namespace@;
        let ghost all = self.pairs();
        let mut out: Vec<(String, Deployment)> = Vec::new();
        let mut i: usize = 0;
        while i < self.entries.len()
            invariant
                i <= self.entries@.len(),
                all == self.pairs(),
                keep == (|p: (Seq<char>, DeploymentView)| p.1.namespace == namespace@),
                out@.map_values(|e: (String, Deployment)| (e.0@, e.1@)) == all.take(i as int).filter(
                    keep,
                ),
            decreases self.entries@.len() - i,
        {
            proof {
                assert(all.take(i + 1) =~= all.take(i as int).push(all[i as int]));
                all.take(i as int).lemma_filter_push(all[i as int], keep);
            }
            if str_eq(self.entries[i].1.namespace.as_str(), namespace) {
                let ghost before = out@;
                out.push((self.entries[i].0.clone(), self.entries[i].1.clone_deployment()));
                proof {
                    assert(out@.map_values(|e: (String, Deployment)| (e.0@, e.1@)) =~= before.map_values(
                        |e: (String, Deployment)| (e.0@, e.1@),
                    ).push(all[i as int]));
                }
            }
            i = i + 1;
        }
        proof {
            assert(all.take(i as int) =~= all);
        }
        out
    }

    /// Create or update the deployment named `name` in `namespace` with a
    /// new manifest at `now`: an existing one gets the manifest and its
    /// resource version raised by one; otherwise a new one is stored under
    /// its manifest id with resource version 1. Returns the manifest id.
    pub fn upsert_deployment(&mut self, namespace: &str, name: &str, manifest: Vec<u8>, now: u64) -> (id:
        String)
        requires
            old(self).wf(),
            forall|k: Seq<char>|
                #[trigger] old(self)@.contains_key(k) ==> old(self)@[k].resource_version < u64::MAX,
        ensures
            final(self).wf(),
            has_deployment(old(self)@, namespace@, name@) ==> {
                &&& old(self)@.contains_key(id@)
                &&& old(self)@[id@].namespace == namespace@ && old(self)@[id@].name == name@
                &&& final(self)@ == old(self)@.insert(
                    id@,
                    DeploymentView {
                        resource_version: (old(self)@[id@].resource_version + 1) as u64,
                        manifest: manifest@,
                        ..old(self)@[id@]
                    },
                )
            },
            !has_deployment(old(self)@, namespace@, name@) ==> {
                &&& id@ == deployment_id(namespace@, name@)
                &&& final(self)@ == old(self)@.insert(
                    id@,
                    DeploymentView {
                        namespace: namespace@,
                        name: name@,
                        resource_version: 1,
                        manifest: manifest@,
                        creation_timestamp: now,
                        last_operation_id: deployment_operation_id(namespace@, name@),
                    },
                )
            },
    {
        let ghost old_pairs = self.pairs();
        match self.find_named(namespace, name) {
            Some(i) => {
                proof {
                    lemma_to_map_value(old_pairs, i as int);
                    assert(old(self)@.contains_key(old_pairs[i as int].0));
                }
                let id = self.entries[i].0.clone();
                let mut d = self.entries[i].1.clone_deployment();
                d.resource_version = d.resource_version + 1;
                d.manifest = manifest;
                let ghost v = d@;
                self.entries.set(i, (id.clone(), d));
                proof {
                    assert(self.pairs() =~= old_pairs.update(i as int, (old_pairs[i as int].0, v)));
                    lemma_update(old_pairs, i as int, v);
                    assert forall|a: int, b: int|
                        0 <= a < self.pairs().len() && 0 <= b < self.pairs().len() && a != b implies (
                        #[trigger] self.pairs()[a]).1.namespace != (#[trigger] self.pairs()[b]).1.namespace
                            || self.pairs()[a].1.name != self.pairs()[b].1.name by {
                        assert(old_pairs[a].1.namespace != old_pairs[b].1.namespace
                            || old_pairs[a].1.name != old_pairs[b].1.name);
                    }
                }
                id
            },
            None => {
                let id = compute_manifest_id(namespace, name, "Deployment");
                proof {
                    reveal_strlit("Deployment");
                }
                let op = String::from_str("kube:apps/v1:Deployment:").concat(namespace).concat(":").concat(
                    name,
                );
                let d = Deployment {
                    namespace: namespace.to_owned(),
                    name: name.to_owned(),
                    resource_version: 1,
                    manifest,
                    creation_timestamp: now,
                    last_operation_id: op,
                };
                let ghost v = d@;
                match self.find_id(id.as_str()) {
                    Some(j) => {
                        self.entries.set(j, (id.clone(), d));
                        proof {
                            assert(self.pairs() =~= old_pairs.update(j as int, (old_pairs[j as int].0, v)));
                            lemma_update(old_pairs, j as int, v);
                            assert forall|a: int, b: int|
                                0 <= a < self.pairs().len() && 0 <= b < self.pairs().len() && a != b implies (
                                #[trigger] self.pairs()[a]).1.namespace != (
                                #[trigger] self.pairs()[b]).1.namespace || self.pairs()[a].1.name
                                != self.pairs()[b].1.name by {
                                if a == j {
                                    assert(self.pairs()[b] == old_pairs[b]);
                                    lemma_to_map_value(old_pairs, b);
                                } else if b == j {
                                    assert(self.pairs()[a] == old_pairs[a]);
                                    lemma_to_map_value(old_pairs, a);
                                } else {
                                    assert(old_pairs[a].1.namespace != old_pairs[b].1.namespace
                                        || old_pairs[a].1.name != old_pairs[b].1.name);
                                }
                            }
                        }
                    },
                    None => {
                        self.entries.push((id.clone(), d));
                        proof {
                            assert(self.pairs() =~= old_pairs.push((id@, v)));
                            lemma_push(old_pairs, id@, v);
                            assert forall|a: int, b: int|
                                0 <= a < self.pairs().len() && 0 <= b < self.pairs().len() && a != b implies (
                                #[trigger] self.pairs()[a]).1.namespace != (
                                #[trigger] self.pairs()[b]).1.namespace || self.pairs()[a].1.name
                                != self.pairs()[b].1.name by {
                                if a == old_pairs.len() {
                                    assert(self.pairs()[b] == old_pairs[b]);
                                    lemma_to_map_value(old_pairs, b);
                                } else if b == old_pairs.len() {
                                    assert(self.pairs()[a] == old_pairs[a]);
                                    lemma_to_map_value(old_pairs, a);
                                } else {
                                    assert(old_pairs[a].1.namespace != old_pairs[b].1.namespace
                                        || old_pairs[a].1.name != old_pairs[b].1.name);
                                }
                            }
                        }
                    },
                }
                id
            },
        }
    }
}

impl Deployment {
    fn clone_deployment(&self) -> (d: Deployment)
        ensures
            d@ == self@,
    {
        Deployment {
            namespace: self.namespace.clone(),
            name: self.name.clone(),
            resource_version: self.resource_version,
            manifest: self.manifest.clone(),
            creation_timestamp: self.creation_timestamp,
            last_operation_id: self.last_operation_id.clone(),
        }
    }
}

/// The store never holds two deployments with the same namespace and name.
pub proof fn lemma_store_names_unique(s: DeploymentStore)
    requires
        s.wf(),
    ensures
        names_unique(s@),
{
    assert forall|a: Seq<char>, b: Seq<char>|
        #[trigger] s@.contains_key(a) && #[trigger] s@.contains_key(b) && s@[a].namespace
            == s@[b].namespace && s@[a].name == s@[b].name implies a == b by {
        lemma_to_map_dom(s.pairs(), a);
        lemma_to_map_dom(s.pairs(), b);
        let i = choose|i: int| 0 <= i < s.pairs().len() && #[trigger] s.pairs()[i].0 == a;
        let j = choose|j: int| 0 <= j < s.pairs().len() && #[trigger] s.pairs()[j].0 == b;
        lemma_to_map_value(s.pairs(), i);
        lemma_to_map_value(s.pairs(), j);
    }
}

} // verus!
