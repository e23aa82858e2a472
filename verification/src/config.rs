//! Configuration data and the discovery of deployable services inside a
//! manifest repository: a model of parsed manifest documents, the search for
//! a registry-hosted container image in a workload document, and the
//! ordering of the services found.
//!
//! Reading the configuration file and walking the repository are I/O and
//! live in the shell; every decision about what a document means is here.

use vstd::prelude::*;
use crate::text;

verus! {

/// The whole configuration file.
#[derive(Debug)]
pub struct Config {
    pub defaults: Option<Defaults>,
    pub environments: Vec<Environment>,
}

/// Optional behaviour defaults of the configuration file.
#[derive(Debug)]
pub struct Defaults {
    pub interactive: Option<bool>,
}

/// One deployable environment of the configuration file.
#[derive(Debug, Clone)]
pub struct Environment {
    pub name: String,
    pub repo_root: String,
    pub kubectl_context: String,
    pub gcp_project: Option<String>,
    pub gcp_location: Option<String>,
    pub gcp_repository: Option<String>,
    pub protected: Option<bool>,
}

/// One service found in the manifest repository: where its manifest lives
/// and how its workload is addressed.
#[derive(Debug, Clone)]
pub struct ServiceSource {
    pub name: String,
    pub image_path: String,
    pub container_name: String,
    pub yaml_path: String,
    pub namespace: Option<String>,
    pub selector: Option<String>,
}

/// The mathematical value of a `ServiceSource`.
pub ghost struct ServiceSourceV {
    pub name: Seq<char>,
    pub image_path: Seq<char>,
    pub container_name: Seq<char>,
    pub yaml_path: Seq<char>,
    pub namespace: Option<Seq<char>>,
    pub selector: Option<Seq<char>>,
}

impl View for ServiceSource {
    type V = ServiceSourceV;

    open spec fn view(&self) -> ServiceSourceV {
        ServiceSourceV {
            name: self.name@,
            image_path: self.image_path@,
            container_name: self.container_name@,
            yaml_path: self.yaml_path@,
            namespace: self.namespace.deep_view(),
            selector: self.selector.deep_view(),
        }
    }
}

impl DeepView for ServiceSource {
    type V = ServiceSourceV;

    open spec fn deep_view(&self) -> ServiceSourceV {
        self.view()
    }
}

/// A parsed manifest document, holding exactly what the service search
/// reads: strings, sequences, mappings in document order, and everything
/// else collapsed to `Other`.
pub enum Yaml {
    Str(String),
    Sequence(Vec<Yaml>),
    Mapping(Vec<YamlEntry>),
    Other,
}

/// One key/value pair of a mapping.
pub struct YamlEntry {
    pub key: Yaml,
    pub value: Yaml,
}

/// Whether a mapping entry's key is the string `key`.
pub open spec fn entry_key_is(e: YamlEntry, key: Seq<char>) -> bool {
    e.key matches Yaml::Str(k) && k@ == key
}

/// The value of the first entry at or after `i` whose key is the string
/// `key`.
pub open spec fn map_get_from(entries: Seq<YamlEntry>, key: Seq<char>, i: int) -> Option<Yaml>
    decreases entries.len() - i,
{
    if i < 0 || i >= entries.len() {
        None
    } else if entry_key_is(entries[i], key) {
        Some(entries[i].value)
    } else {
        map_get_from(entries, key, i + 1)
    }
}

/// Looking a string key up in a mapping.
pub open spec fn map_get(entries: Seq<YamlEntry>, key: Seq<char>) -> Option<Yaml> {
    map_get_from(entries, key, 0)
}

/// Looking a string key up in any document: only mappings hold entries.
pub open spec fn yaml_get_spec(y: Yaml, key: Seq<char>) -> Option<Yaml> {
    match y {
        Yaml::Mapping(entries) => map_get(entries@, key),
        _ => None,
    }
}

/// The string a document holds, when it is a string.
pub open spec fn yaml_str_spec(y: Yaml) -> Option<Seq<char>> {
    match y {
        Yaml::Str(s) => Some(s@),
        _ => None,
    }
}

impl Yaml {
    /// Looks a string key up in this document.
    pub fn get<'a>(&'a self, key: &str) -> (r: Option<&'a Yaml>)
        ensures
            match r {
                Some(v) => yaml_get_spec(*self, key@) == Some(*v),
                None => yaml_get_spec(*self, key@) is None,
            },
    {
        match self {
            Yaml::Mapping(entries) => {
                let n = entries.len();
                let mut i: usize = 0;
                while i < n
                    invariant
                        *self matches Yaml::Mapping(es) && es@ == entries@,
                        n == entries@.len(),
                        0 <= i <= n,
                        map_get(entries@, key@) == map_get_from(entries@, key@, i as int),
                    decreases n - i,
                {
                    let hit = match &entries[i].key {
                        Yaml::Str(k) => text::str_eq(k.as_str(), key),
                        _ => false,
                    };
                    if hit {
                        proof {
                            assert(entry_key_is(entries@[i as int], key@));
                            assert(map_get_from(entries@, key@, i as int) == Some(
                                entries@[i as int].value,
                            ));
                            assert(yaml_get_spec(*self, key@) == map_get(entries@, key@));
                            assert(yaml_get_spec(*self, key@) == Some(entries@[i as int].value));
                        }
                        return Some(&entries[i].value);
                    }
                    i = i + 1;
                }
                None
            },
            _ => None,
        }
    }

    /// The string this document holds, when it is a string.
    pub fn as_str<'a>(&'a self) -> (r: Option<&'a String>)
        ensures
            match r {
                Some(s) => yaml_str_spec(*self) == Some(s@),
                None => yaml_str_spec(*self) is None,
            },
    {
        match self {
            Yaml::Str(s) => Some(s),
            _ => None,
        }
    }
}

/// An image reference the registry search accepts: one hosted on `gcr.io`
/// or on an Artifact Registry `pkg.dev` domain.
pub open spec fn is_registry_image(img: Seq<char>) -> bool {
    text::contains_seq(img, "gcr.io"@) || text::contains_seq(img, "pkg.dev"@)
}

/// The container name of a container mapping: its `name` entry, or
/// `default` when that entry is missing or not a string.
pub open spec fn container_name_of(entries: Seq<YamlEntry>) -> Seq<char> {
    match map_get(entries, "name"@) {
        Some(v) => match v {
            Yaml::Str(s) => s@,
            _ => "default"@,
        },
        None => "default"@,
    }
}

/// What a mapping itself contributes to the image search: its own `image`
/// entry, when that entry is a string naming a registry-hosted image.
pub open spec fn own_image(entries: Seq<YamlEntry>) -> Option<(Seq<char>, Seq<char>)> {
    match map_get(entries, "image"@) {
        Some(v) => match v {
            Yaml::Str(s) => if is_registry_image(s@) {
                Some((s@, container_name_of(entries)))
            } else {
                None
            },
            _ => None,
        },
        None => None,
    }
}

/// The first registry-hosted image in the document, in document order: a
/// mapping is checked for its own `image` entry first, then its values are
/// searched depth-first, then a sequence's items.
pub open spec fn find_image_spec(y: Yaml) -> Option<(Seq<char>, Seq<char>)>
    decreases y, 0int,
{
    match y {
        Yaml::Mapping(entries) => match own_image(entries@) {
            Some(r) => Some(r),
            None => find_image_in_entries(entries@, 0),
        },
        Yaml::Sequence(items) => find_image_in_items(items@, 0),
        _ => None,
    }
}

/// Searches the values of a mapping's entries from position `i` on.
pub open spec fn find_image_in_entries(entries: Seq<YamlEntry>, i: int) -> Option<
    (Seq<char>, Seq<char>),
>
    decreases entries, entries.len() - i,
{
    if i < 0 || i >= entries.len() {
        None
    } else {
        match find_image_spec(entries[i].value) {
            Some(r) => Some(r),
            None => find_image_in_entries(entries, i + 1),
        }
    }
}

/// Searches the items of a sequence from position `i` on.
pub open spec fn find_image_in_items(items: Seq<Yaml>, i: int) -> Option<(Seq<char>, Seq<char>)>
    decreases items, items.len() - i,
{
    if i < 0 || i >= items.len() {
        None
    } else {
        match find_image_spec(items[i]) {
            Some(r) => Some(r),
            None => find_image_in_items(items, i + 1),
        }
    }
}

fn find_image_in_entries_exec(entries: &Vec<YamlEntry>, i: usize) -> (r: Option<(String, String)>)
    requires
        i <= entries@.len(),
    ensures
        r.deep_view() == find_image_in_entries(entries@, i as int),
    decreases entries@, entries@.len() - i,
{
    if i == entries.len() {
        None
    } else {
        proof {
            assert(entries@[i as int].value == entries[i as int].value);
        }
        match find_image_exec(&entries[i].value) {
            Some(r) => Some(r),
            None => find_image_in_entries_exec(entries, i + 1),
        }
    }
}

fn find_image_in_items_exec(items: &Vec<Yaml>, i: usize) -> (r: Option<(String, String)>)
    requires
        i <= items@.len(),
    ensures
        r.deep_view() == find_image_in_items(items@, i as int),
    decreases items@, items@.len() - i,
{
    if i == items.len() {
        None
    } else {
        match find_image_exec(&items[i]) {
            Some(r) => Some(r),
            None => find_image_in_items_exec(items, i + 1),
        }
    }
}

/// Finds the first registry-hosted image in a document, with its container
/// name.
pub fn find_image_exec(y: &Yaml) -> (r: Option<(String, String)>)
    ensures
        r.deep_view() == find_image_spec(*y),
    decreases *y, 0int,
{
    match y {
        Yaml::Mapping(entries) => {
            match y.get("image") {
                Some(v) => {
                    match v.as_str() {
                        Some(s) => {
                            if text::contains_str(s.as_str(), "gcr.io") || text::contains_str(
                                s.as_str(),
                                "pkg.dev",
                            ) {
                                let container = match y.get("name") {
                                    Some(nv) => match nv.as_str() {
                                        Some(n) => n.clone(),
                                        None => String::from_str("default"),
                                    },
                                    None => String::from_str("default"),
                                };
                                return Some((s.clone(), container));
                            }
                        },
                        None => {},
                    }
                },
                None => {},
            }
            find_image_in_entries_exec(entries, 0)
        },
        Yaml::Sequence(items) => find_image_in_items_exec(items, 0),
        _ => None,
    }
}

/// The workload kinds whose manifests name a deployable service.
pub open spec fn workload_kind(kind: Seq<char>) -> bool {
    ||| kind == "Deployment"@
    ||| kind == "StatefulSet"@
    ||| kind == "DaemonSet"@
    ||| kind == "Job"@
    ||| kind == "CronJob"@
}

/// The label selector a workload document names: `app=<label>` when
/// `spec.selector.matchLabels.app` is a string, absent otherwise.
pub open spec fn selector_spec(spec_doc: Yaml) -> Option<Seq<char>> {
    match yaml_get_spec(spec_doc, "selector"@) {
        Some(sel) => match yaml_get_spec(sel, "matchLabels"@) {
            Some(ml) => match yaml_get_spec(ml, "app"@) {
                Some(app) => match yaml_str_spec(app) {
                    Some(s) => Some("app="@ + s),
                    None => None,
                },
                None => None,
            },
            None => None,
        },
        None => None,
    }
}

/// The namespace a document's metadata names, when it is a string.
pub open spec fn namespace_spec(metadata: Yaml) -> Option<Seq<char>> {
    match yaml_get_spec(metadata, "namespace"@) {
        Some(v) => yaml_str_spec(v),
        None => None,
    }
}

/// The service a manifest document describes: present exactly when the
/// document is a named workload of a known kind whose spec holds a
/// registry-hosted image.
pub open spec fn extract_service_spec(resource: Yaml, yaml_path: Seq<char>) -> Option<
    ServiceSourceV,
> {
    match yaml_get_spec(resource, "kind"@) {
        Some(kv) => match yaml_str_spec(kv) {
            Some(kind) => match yaml_get_spec(resource, "metadata"@) {
                Some(md) => match yaml_get_spec(md, "name"@) {
                    Some(nv) => match yaml_str_spec(nv) {
                        Some(name) => if workload_kind(kind) {
                            match yaml_get_spec(resource, "spec"@) {
                                Some(spec_doc) => match find_image_spec(spec_doc) {
                                    Some(img) => Some(
                                        ServiceSourceV {
                                            name,
                                            image_path: img.0,
                                            container_name: img.1,
                                            yaml_path,
                                            namespace: namespace_spec(md),
                                            selector: selector_spec(spec_doc),
                                        },
                                    ),
                                    None => None,
                                },
                                None => None,
                            }
                        } else {
                            None
                        },
                        None => None,
                    },
                    None => None,
                },
                None => None,
            },
            None => None,
        },
        None => None,
    }
}

impl Environment {
    /// Finds the first registry-hosted image in a document, with its
    /// container's name.
    pub fn find_gcr_image(&self, value: &Yaml) -> (r: Option<(String, String)>)
        ensures
            r.deep_view() == find_image_spec(*value),
    {
        find_image_exec(value)
    }

    /// Reads one manifest document as a deployable service, if it is one.
    pub fn extract_gcr_service(&self, resource: &Yaml, yaml_path: &str) -> (r: Option<
        ServiceSource,
    >)
        ensures
            r.deep_view() == extract_service_spec(*resource, yaml_path@),
    {
        let kv = match resource.get("kind") {
            Some(v) => v,
            None => {
                return None;
            },
        };
        let kind = match kv.as_str() {
            Some(s) => s,
            None => {
                return None;
            },
        };
        let md = match resource.get("metadata") {
            Some(v) => v,
            None => {
                return None;
            },
        };
        let nv = match md.get("name") {
            Some(v) => v,
            None => {
                return None;
            },
        };
        let name = match nv.as_str() {
            Some(s) => s,
            None => {
                return None;
            },
        };
        let known_kind = text::str_eq(kind.as_str(), "Deployment") || text::str_eq(
            kind.as_str(),
            "StatefulSet",
        ) || text::str_eq(kind.as_str(), "DaemonSet") || text::str_eq(kind.as_str(), "Job")
            || text::str_eq(kind.as_str(), "CronJob");
        if !known_kind {
            return None;
        }
        let spec_doc = match resource.get("spec") {
            Some(v) => v,
            None => {
                return None;
            },
        };
        let img = match find_image_exec(spec_doc) {
            Some(p) => p,
            None => {
                return None;
            },
        };
        let namespace = match md.get("namespace") {
            Some(v) => match v.as_str() {
                Some(s) => Some(s.clone()),
                None => None,
            },
            None => None,
        };
        let selector = match spec_doc.get("selector") {
            Some(sel) => match sel.get("matchLabels") {
                Some(ml) => match ml.get("app") {
                    Some(app) => match app.as_str() {
                        Some(s) => {
                            let mut lbl = String::from_str("app=");
                            lbl.append(s.as_str());
                            Some(lbl)
                        },
                        None => None,
                    },
                    None => None,
                },
                None => None,
            },
            None => None,
        };
        Some(
            ServiceSource {
                name: name.clone(),
                image_path: img.0,
                container_name: img.1,
                yaml_path: yaml_path.to_owned(),
                namespace,
                selector,
            },
        )
    }
}

fn opt_str_eq(a: &Option<String>, b: &Option<String>) -> (r: bool)
    ensures
        r == (a.deep_view() == b.deep_view()),
{
    match (a, b) {
        (Some(x), Some(y)) => text::str_eq(x.as_str(), y.as_str()),
        (None, None) => true,
        _ => false,
    }
}

fn service_eq(a: &ServiceSource, b: &ServiceSource) -> (r: bool)
    ensures
        r == (a@ == b@),
{
    let r = text::str_eq(a.name.as_str(), b.name.as_str()) && text::str_eq(
        a.image_path.as_str(),
        b.image_path.as_str(),
    ) && text::str_eq(a.container_name.as_str(), b.container_name.as_str()) && text::str_eq(
        a.yaml_path.as_str(),
        b.yaml_path.as_str(),
    ) && opt_str_eq(&a.namespace, &b.namespace) && opt_str_eq(&a.selector, &b.selector);
    proof {
        if r {
            assert(a@ == b@);
        }
    }
    r
}

fn contains_service(list: &Vec<ServiceSource>, s: &ServiceSource) -> (r: bool)
    ensures
        r == list.deep_view().contains(s@),
{
    let n = list.len();
    let mut i: usize = 0;
    while i < n
        invariant
            n == list@.len(),
            0 <= i <= n,
            forall|k: int| 0 <= k < i ==> list.deep_view()[k] != s@,
        decreases n - i,
    {
        if service_eq(&list[i], s) {
            proof {
                assert(list.deep_view()[i as int] == s@);
            }
            return true;
        }
        i = i + 1;
    }
    false
}

/// Sorted weakly by name in lexicographic order.
pub open spec fn sorted_by_name(s: Seq<ServiceSourceV>) -> bool {
    forall|i: int, j: int| 0 <= i < j < s.len() ==> text::lex_le(s[i].name, s[j].name)
}

/// Orders the services found in a repository by name and drops exact
/// duplicates, as repeated documents for one service would produce: the
/// result holds exactly the distinct services found.
pub fn sorted_unique_services(found: Vec<ServiceSource>) -> (r: Vec<ServiceSource>)
    ensures
        sorted_by_name(r.deep_view()),
        r.deep_view().no_duplicates(),
        forall|x: ServiceSourceV| r.deep_view().contains(x) <==> found.deep_view().contains(x),
{
    let mut out: Vec<ServiceSource> = Vec::new();
    let n = found.len();
    let mut i: usize = 0;
    proof {
        assert(out.deep_view() =~= Seq::<ServiceSourceV>::empty());
    }
    while i < n
        invariant
            n == found@.len(),
            0 <= i <= n,
            sorted_by_name(out.deep_view()),
            out.deep_view().no_duplicates(),
            forall|x: ServiceSourceV|
                out.deep_view().contains(x) <==> found.deep_view().take(i as int).contains(x),
        decreases n - i,
    {
        let ghost out_before = out.deep_view();
        let s = found[i].clone_service();
        proof {
            assert(s@ == found.deep_view()[i as int]);
        }
        if !contains_service(&out, &s) {
            let m = out.len();
            let mut j: usize = 0;
            while j < m && text::str_le(out[j].name.as_str(), s.name.as_str())
                invariant
                    m == out@.len(),
                    0 <= j <= m,
                    forall|k: int| 0 <= k < j ==> text::lex_le(out.deep_view()[k].name, s@.name),
                decreases m - j,
            {
                proof {
                    assert(out.deep_view()[j as int].name == out@[j as int]@.name);
                }
                j = j + 1;
            }
            proof {
                if j < m {
                    assert(out.deep_view()[j as int].name == out@[j as int]@.name);
                    text::lemma_lex_le_total(out.deep_view()[j as int].name, s@.name);
                }
            }
            let ghost ov = out.deep_view();
            let ghost ovec = out@;
            out.insert(j, s);
            proof {
                ovec.insert_ensures(j as int, s);
                ov.insert_ensures(j as int, s@);
                assert forall|k: int|
                    0 <= k < out.deep_view().len() implies out.deep_view()[k] == ov.insert(
                    j as int,
                    s@,
                )[k] by {
                    if k < j {
                        assert(out@[k] == ovec[k]);
                    } else if k == j {
                        assert(out@[k] == s);
                    } else {
                        assert(out@[k] == ovec[k - 1]);
                    }
                }
                assert(out.deep_view() =~= ov.insert(j as int, s@));
                assert forall|p: int, q: int|
                    0 <= p < q < out.deep_view().len() implies text::lex_le(
                    out.deep_view()[p].name,
                    out.deep_view()[q].name,
                ) by {
                    let dv = out.deep_view();
                    if q < j {
                        assert(dv[p] == ov[p] && dv[q] == ov[q]);
                    } else if p < j && q == j {
                        assert(dv[p] == ov[p] && dv[q] == s@);
                    } else if p < j && q > j {
                        assert(dv[p] == ov[p] && dv[q] == ov[q - 1]);
                        assert(text::lex_le(s@.name, ov[j as int].name));
                        if q - 1 > j {
                            assert(text::lex_le(ov[j as int].name, ov[q - 1].name));
                            text::lemma_lex_le_trans(s@.name, ov[j as int].name, ov[q - 1].name);
                        }
                        text::lemma_lex_le_trans(dv[p].name, s@.name, ov[q - 1].name);
                    } else if p == j {
                        assert(dv[p] == s@ && dv[q] == ov[q - 1]);
                        assert(text::lex_le(s@.name, ov[j as int].name));
                        if q - 1 > j {
                            assert(text::lex_le(ov[j as int].name, ov[q - 1].name));
                            text::lemma_lex_le_trans(s@.name, ov[j as int].name, ov[q - 1].name);
                        }
                    } else {
                        assert(dv[p] == ov[p - 1] && dv[q] == ov[q - 1]);
                    }
                }
                assert forall|p: int, q: int|
                    0 <= p < q < out.deep_view().len() implies out.deep_view()[p]
                    != out.deep_view()[q] by {
                    let dv = out.deep_view();
                    ov.insert_ensures(j as int, s@);
                    if p == j {
                        assert(dv[q] == ov[q - 1]);
                        assert(!ov.contains(s@));
                        assert(ov[q - 1] != s@);
                    } else if q == j {
                        assert(dv[p] == ov[p]);
                        assert(!ov.contains(s@));
                        assert(ov[p] != s@);
                    } else {
                        let p0: int = if p < j {
                            p
                        } else {
                            p - 1
                        };
                        let q0: int = if q < j {
                            q
                        } else {
                            q - 1
                        };
                        assert(dv[p] == ov[p0] && dv[q] == ov[q0]);
                        assert(p0 != q0);
                    }
                }
                assert forall|x: ServiceSourceV|
                    out.deep_view().contains(x) <==> found.deep_view().take(
                    i + 1,
                ).contains(x) by {
                    let dv = out.deep_view();
                    let taken = found.deep_view().take(i + 1);
                    assert(taken.drop_last() =~= found.deep_view().take(i as int));
                    assert(taken.last() == s@);
                    if dv.contains(x) {
                        let k = choose|k: int| 0 <= k < dv.len() && dv[k] == x;
                        if k == j {
                            assert(taken[taken.len() - 1] == x);
                        } else {
                            let k0: int = if k < j {
                                k
                            } else {
                                k - 1
                            };
                            assert(ov[k0] == x);
                            assert(out_before.contains(x));
                            let k1 = choose|k1: int|
                                0 <= k1 < found.deep_view().take(i as int).len()
                                    && found.deep_view().take(i as int)[k1] == x;
                            assert(taken[k1] == x);
                        }
                    }
                    if taken.contains(x) {
                        let k = choose|k: int| 0 <= k < taken.len() && taken[k] == x;
                        if k == taken.len() - 1 {
                            assert(dv[j as int] == x);
                        } else {
                            assert(found.deep_view().take(i as int)[k] == x);
                            assert(out_before.contains(x));
                            let k1 = choose|k1: int| 0 <= k1 < ov.len() && ov[k1] == x;
                            let k2: int = if k1 < j {
                                k1
                            } else {
                                k1 + 1
                            };
                            assert(dv[k2] == x);
                        }
                    }
                }
            }
        } else {
            proof {
                assert forall|x: ServiceSourceV|
                    out.deep_view().contains(x) <==> found.deep_view().take(
                    i + 1,
                ).contains(x) by {
                    let taken = found.deep_view().take(i + 1);
                    assert(taken.drop_last() =~= found.deep_view().take(i as int));
                    assert(taken.last() == s@);
                    if taken.contains(x) {
                        let k = choose|k: int| 0 <= k < taken.len() && taken[k] == x;
                        if k == taken.len() - 1 {
                            assert(out.deep_view().contains(x));
                        } else {
                            assert(found.deep_view().take(i as int)[k] == x);
                        }
                    }
                    if out.deep_view().contains(x) {
                        let k = choose|k1: int|
                            0 <= k1 < found.deep_view().take(i as int).len() && found.deep_view()
                                .take(i as int)[k1] == x;
                        assert(taken[k] == x);
                    }
                }
            }
        }
        i = i + 1;
    }
    proof {
        assert(found.deep_view().take(n as int) =~= found.deep_view());
    }
    out
}

impl ServiceSource {
    /// A field-for-field copy.
    pub fn clone_service(&self) -> (r: ServiceSource)
        ensures
            r@ == self@,
    {
        ServiceSource {
            name: self.name.clone(),
            image_path: self.image_path.clone(),
            container_name: self.container_name.clone(),
            yaml_path: self.yaml_path.clone(),
            namespace: match &self.namespace {
                Some(s) => Some(s.clone()),
                None => None,
            },
            selector: match &self.selector {
                Some(s) => Some(s.clone()),
                None => None,
            },
        }
    }
}

/// The first environment of the configuration with the given name.
pub fn find_environment<'a>(environments: &'a Vec<Environment>, name: &str) -> (r: Option<
    &'a Environment,
>)
    ensures
        match r {
            Some(e) => exists|k: int|
                0 <= k < environments@.len() && environments@[k].name@ == name@ && *e
                    == environments@[k],
            None => forall|k: int|
                0 <= k < environments@.len() ==> environments@[k].name@ != name@,
        },
{
    let n = environments.len();
    let mut i: usize = 0;
    while i < n
        invariant
            n == environments@.len(),
            0 <= i <= n,
            forall|k: int| 0 <= k < i ==> environments@[k].name@ != name@,
        decreases n - i,
    {
        if text::str_eq(environments[i].name.as_str(), name) {
            return Some(&environments[i]);
        }
        i = i + 1;
    }
    None
}

/// The first found service with the given name.
pub fn find_service<'a>(services: &'a Vec<ServiceSource>, name: &str) -> (r: Option<
    &'a ServiceSource,
>)
    ensures
        match r {
            Some(s) => exists|k: int|
                0 <= k < services@.len() && services@[k].name@ == name@ && *s == services@[k],
            None => forall|k: int| 0 <= k < services@.len() ==> services@[k].name@ != name@,
        },
{
    let n = services.len();
    let mut i: usize = 0;
    while i < n
        invariant
            n == services@.len(),
            0 <= i <= n,
            forall|k: int| 0 <= k < i ==> services@[k].name@ != name@,
        decreases n - i,
    {
        if text::str_eq(services[i].name.as_str(), name) {
            return Some(&services[i]);
        }
        i = i + 1;
    }
    None
}

/// Whether a directory entry's name marks it as hidden, so the repository
/// walk skips it.
pub fn is_hidden_name(name: &str) -> (r: bool)
    ensures
        r == (name@.len() > 0 && name@[0] == '.'),
{
    if name.unicode_len() == 0 {
        return false;
    }
    name.get_char(0) == '.'
}

/// Whether a file extension marks a manifest file.
pub fn is_manifest_ext(ext: &str) -> (r: bool)
    ensures
        r == (ext@ == "yaml"@ || ext@ == "yml"@),
{
    text::str_eq(ext, "yaml") || text::str_eq(ext, "yml")
}

} // verus!
