//! The lists that the server enumerates: operating systems with their
//! versions, and makes with their devices. The server sends flat lists; the
//! catalog keeps them grouped, each operating system and each make once, in
//! the order in which the server first named it.

use crate::model::{JSONDeviceOsVersions, JSONMakeModel, JSONModelMktName};
use crate::names::{ascending, contains_name, keep_non_empty, non_empty_names, sort_names};
use crate::recency::{distinct_keys, has_key, lemma_index_unique, lookup};
use vstd::prelude::*;

verus! {

/// The names of `names`, each once, in the order of first occurrence.
pub open spec fn distinct_in_order(names: Seq<Seq<char>>) -> Seq<Seq<char>>
    decreases names.len(),
{
    if names.len() == 0 {
        Seq::empty()
    } else {
        let rest = distinct_in_order(names.drop_last());
        if rest.contains(names.last()) {
            rest
        } else {
            rest.push(names.last())
        }
    }
}

/// The keys of `pairs`, in order.
pub open spec fn keys_of<V>(pairs: Seq<(Seq<char>, V)>) -> Seq<Seq<char>> {
    Seq::new(pairs.len(), |i: int| pairs[i].0)
}

/// The values that `pairs` files under `key`, in order.
pub open spec fn values_of<V>(pairs: Seq<(Seq<char>, V)>, key: Seq<char>) -> Seq<V>
    decreases pairs.len(),
{
    if pairs.len() == 0 {
        Seq::empty()
    } else {
        let rest = values_of(pairs.drop_last(), key);
        if pairs.last().0 == key {
            rest.push(pairs.last().1)
        } else {
            rest
        }
    }
}

/// `pairs` grouped by key: each key once, in the order of first occurrence,
/// with all the values filed under it, in order.
pub open spec fn grouped<V>(pairs: Seq<(Seq<char>, V)>) -> Seq<(Seq<char>, Seq<V>)> {
    let keys = distinct_in_order(keys_of(pairs));
    Seq::new(keys.len(), |i: int| (keys[i], values_of(pairs, keys[i])))
}

/// `distinct_in_order` keeps every name, and keeps it once.
pub proof fn lemma_distinct_in_order(names: Seq<Seq<char>>)
    ensures
        forall|name: Seq<char>| #[trigger]
            distinct_in_order(names).contains(name) <==> names.contains(name),
        forall|i: int, j: int|
            0 <= i < j < distinct_in_order(names).len() ==> distinct_in_order(names)[i]
                != distinct_in_order(names)[j],
    decreases names.len(),
{
    let kept = distinct_in_order(names);
    if names.len() > 0 {
        let before = names.drop_last();
        let rest = distinct_in_order(before);
        lemma_distinct_in_order(before);
        assert forall|name: Seq<char>| kept.contains(name) <==> names.contains(name) by {
            if kept.contains(name) {
                let i = choose|i: int| 0 <= i < kept.len() && kept[i] == name;
                if i < rest.len() {
                    assert(rest[i] == name);
                    assert(rest.contains(name));
                    assert(before.contains(name));
                    let j = choose|j: int| 0 <= j < before.len() && before[j] == name;
                    assert(names[j] == name);
                } else {
                    assert(names[names.len() - 1] == name);
                }
            }
            if names.contains(name) {
                let j = choose|j: int| 0 <= j < names.len() && names[j] == name;
                if j < before.len() {
                    assert(before[j] == name);
                    assert(before.contains(name));
                    assert(rest.contains(name));
                    let i = choose|i: int| 0 <= i < rest.len() && rest[i] == name;
                    assert(kept[i] == name);
                } else if rest.contains(name) {
                } else {
                    assert(kept[kept.len() - 1] == name);
                }
            }
        }
        assert forall|i: int, j: int| 0 <= i < j < kept.len() implies kept[i] != kept[j] by {
            if j == rest.len() {
                assert(rest[i] == kept[i]);
                assert(rest.contains(kept[i]));
            }
        }
    }
}

/// Grouping files every key once, and under it exactly the values that the
/// pairs file under it.
pub proof fn law_grouped<V>(pairs: Seq<(Seq<char>, V)>, key: Seq<char>)
    ensures
        distinct_keys(grouped(pairs)),
        has_key(grouped(pairs), key) <==> keys_of(pairs).contains(key),
        has_key(grouped(pairs), key) ==> lookup(grouped(pairs), key) == Some(values_of(pairs, key)),
{
    let keys = distinct_in_order(keys_of(pairs));
    let groups = grouped(pairs);
    lemma_distinct_in_order(keys_of(pairs));
    if has_key(groups, key) {
        let i = choose|i: int| 0 <= i < groups.len() && (#[trigger] groups[i]).0 == key;
        assert(keys[i] == key);
        assert(keys.contains(key));
        lemma_index_unique(groups, key, i);
    }
    if keys_of(pairs).contains(key) {
        assert(keys.contains(key));
        let i = choose|i: int| 0 <= i < keys.len() && keys[i] == key;
        assert(groups[i].0 == key);
    }
}

/// The names of `names`, each once, in the order of first occurrence.
pub fn distinct_names(names: &Vec<String>) -> (kept: Vec<String>)
    ensures
        kept.deep_view() == distinct_in_order(names.deep_view()),
{
    let ghost all = names.deep_view();
    let mut kept: Vec<String> = Vec::new();
    let mut i: usize = 0;
    while i < names.len()
        invariant
            0 <= i <= names.len(),
            all == names.deep_view(),
            kept.deep_view() == distinct_in_order(all.take(i as int)),
        decreases names.len() - i,
    {
        let ghost before = kept.deep_view();
        proof {
            let upto = all.take(i as int + 1);
            assert(upto.last() == names[i as int]@);
            assert(upto.drop_last() =~= all.take(i as int));
        }
        if !contains_name(&kept, names[i].as_str()) {
            kept.push(names[i].clone());
            assert(kept.deep_view() =~= before.push(names[i as int]@));
        }
        i = i + 1;
    }
    proof {
        assert(all.take(names.len() as int) =~= all);
    }
    kept
}

/// Where `groups` files `name`, if it does.
pub fn group_index<V>(groups: &Vec<(String, V)>, name: &str) -> (at: Option<usize>)
    ensures
        match at {
            Some(i) => i < groups.len() && groups[i as int].0@ == name@ && forall|j: int|
                0 <= j < i ==> groups[j].0@ != name@,
            None => forall|j: int| 0 <= j < groups.len() ==> groups[j].0@ != name@,
        },
{
    let wanted = name.to_owned();
    let mut i: usize = 0;
    while i < groups.len()
        invariant
            0 <= i <= groups.len(),
            wanted@ == name@,
            forall|j: int| 0 <= j < i ==> groups[j].0@ != name@,
        decreases groups.len() - i,
    {
        if groups[i].0 == wanted {
            return Some(i);
        }
        i = i + 1;
    }
    None
}

/// The operating systems that `pairs` names, in order.
pub fn os_names(pairs: &Vec<JSONDeviceOsVersions>) -> (names: Vec<String>)
    ensures
        names.deep_view() == keys_of(pairs.deep_view()),
{
    let mut names: Vec<String> = Vec::new();
    let mut i: usize = 0;
    while i < pairs.len()
        invariant
            0 <= i <= pairs.len(),
            names.len() == i,
            forall|j: int| 0 <= j < i ==> (#[trigger] names[j])@ == pairs[j].device_os@,
        decreases pairs.len() - i,
    {
        names.push(pairs[i].device_os.clone());
        i = i + 1;
    }
    assert(names.deep_view() =~= keys_of(pairs.deep_view()));
    names
}

/// The versions that `pairs` lists for the operating system `os`, in order.
pub fn versions_of_os(pairs: &Vec<JSONDeviceOsVersions>, os: &String) -> (versions: Vec<String>)
    ensures
        versions.deep_view() == values_of(pairs.deep_view(), os@),
{
    let ghost all = pairs.deep_view();
    let mut versions: Vec<String> = Vec::new();
    let mut i: usize = 0;
    while i < pairs.len()
        invariant
            0 <= i <= pairs.len(),
            all == pairs.deep_view(),
            versions.deep_view() == values_of(all.take(i as int), os@),
        decreases pairs.len() - i,
    {
        let ghost before = versions.deep_view();
        proof {
            let upto = all.take(i as int + 1);
            assert(upto.last() == pairs[i as int].deep_view());
            assert(upto.drop_last() =~= all.take(i as int));
        }
        if pairs[i].device_os == *os {
            versions.push(pairs[i].device_os_version.clone());
            assert(versions.deep_view() =~= before.push(pairs[i as int].device_os_version@));
        }
        i = i + 1;
    }
    proof {
        assert(all.take(pairs.len() as int) =~= all);
    }
    versions
}

/// The versions that the server lists, grouped by operating system.
pub fn group_os_versions(pairs: &Vec<JSONDeviceOsVersions>) -> (groups: Vec<(String, Vec<String>)>)
    ensures
        groups.deep_view() == grouped(pairs.deep_view()),
{
    let names = os_names(pairs);
    let keys = distinct_names(&names);
    let ghost all = pairs.deep_view();
    let mut groups: Vec<(String, Vec<String>)> = Vec::new();
    let mut i: usize = 0;
    while i < keys.len()
        invariant
            0 <= i <= keys.len(),
            all == pairs.deep_view(),
            keys.deep_view() == distinct_in_order(keys_of(all)),
            groups.len() == i,
            forall|j: int|
                0 <= j < i ==> (#[trigger] groups[j]).deep_view() == (
                    keys[j]@,
                    values_of(all, keys[j]@),
                ),
        decreases keys.len() - i,
    {
        let versions = versions_of_os(pairs, &keys[i]);
        groups.push((keys[i].clone(), versions));
        i = i + 1;
    }
    proof {
        let want = grouped(all);
        assert(keys.deep_view().len() == keys.len());
        assert forall|j: int| 0 <= j < groups.len() implies groups.deep_view()[j] == want[j] by {
            assert(groups.deep_view()[j] == groups[j].deep_view());
            assert(keys.deep_view()[j] == keys[j]@);
        }
        assert(groups.deep_view() =~= want);
    }
    groups
}

/// The makes that `models` names, in order.
pub fn brand_names(models: &Vec<JSONMakeModel>) -> (names: Vec<String>)
    ensures
        names.deep_view() == keys_of(models.deep_view()),
{
    let mut names: Vec<String> = Vec::new();
    let mut i: usize = 0;
    while i < models.len()
        invariant
            0 <= i <= models.len(),
            names.len() == i,
            forall|j: int| 0 <= j < i ==> (#[trigger] names[j])@ == models[j].brand_name@,
        decreases models.len() - i,
    {
        names.push(models[i].brand_name.clone());
        i = i + 1;
    }
    assert(names.deep_view() =~= keys_of(models.deep_view()));
    names
}

/// The devices that `models` lists for the make `brand`, in order; a device
/// without a marketing name gets the empty one.
pub fn devices_of_make(models: &Vec<JSONMakeModel>, brand: &String) -> (devices: Vec<
    JSONModelMktName,
>)
    ensures
        devices.deep_view() == values_of(models.deep_view(), brand@),
{
    let ghost all = models.deep_view();
    let mut devices: Vec<JSONModelMktName> = Vec::new();
    let mut i: usize = 0;
    while i < models.len()
        invariant
            0 <= i <= models.len(),
            all == models.deep_view(),
            devices.deep_view() == values_of(all.take(i as int), brand@),
        decreases models.len() - i,
    {
        let ghost before = devices.deep_view();
        proof {
            let upto = all.take(i as int + 1);
            assert(upto.last() == models[i as int].deep_view());
            assert(upto.drop_last() =~= all.take(i as int));
        }
        if models[i].brand_name == *brand {
            let marketing_name = match &models[i].marketing_name {
                Some(name) => name.clone(),
                None => String::new(),
            };
            let device = JSONModelMktName {
                model_name: models[i].model_name.clone(),
                marketing_name,
            };
            devices.push(device);
            assert(devices.deep_view() =~= before.push(models[i as int].deep_view().1));
        }
        i = i + 1;
    }
    proof {
        assert(all.take(models.len() as int) =~= all);
    }
    devices
}

/// The devices that the server lists, grouped by make.
pub fn group_makes(models: &Vec<JSONMakeModel>) -> (groups: Vec<(String, Vec<JSONModelMktName>)>)
    ensures
        groups.deep_view() == grouped(models.deep_view()),
{
    let names = brand_names(models);
    let keys = distinct_names(&names);
    let ghost all = models.deep_view();
    let mut groups: Vec<(String, Vec<JSONModelMktName>)> = Vec::new();
    let mut i: usize = 0;
    while i < keys.len()
        invariant
            0 <= i <= keys.len(),
            all == models.deep_view(),
            keys.deep_view() == distinct_in_order(keys_of(all)),
            groups.len() == i,
            forall|j: int|
                0 <= j < i ==> (#[trigger] groups[j]).deep_view() == (
                    keys[j]@,
                    values_of(all, keys[j]@),
                ),
        decreases keys.len() - i,
    {
        let devices = devices_of_make(models, &keys[i]);
        groups.push((keys[i].clone(), devices));
        i = i + 1;
    }
    proof {
        let want = grouped(all);
        assert(keys.deep_view().len() == keys.len());
        assert forall|j: int| 0 <= j < groups.len() implies groups.deep_view()[j] == want[j] by {
            assert(groups.deep_view()[j] == groups[j].deep_view());
            assert(keys.deep_view()[j] == keys[j]@);
        }
        assert(groups.deep_view() =~= want);
    }
    groups
}

/// The keys of `groups`, in order.
pub fn group_names<V: DeepView>(groups: &Vec<(String, V)>) -> (names: Vec<String>)
    ensures
        names.deep_view() == keys_of(groups.deep_view()),
{
    let mut names: Vec<String> = Vec::new();
    let mut i: usize = 0;
    while i < groups.len()
        invariant
            0 <= i <= groups.len(),
            names.len() == i,
            forall|j: int| 0 <= j < i ==> (#[trigger] names[j])@ == groups[j].0@,
        decreases groups.len() - i,
    {
        names.push(groups[i].0.clone());
        i = i + 1;
    }
    assert(names.deep_view() =~= keys_of(groups.deep_view()));
    names
}

/// An independent copy of a list of devices.
pub fn clone_devices(list: &Vec<JSONModelMktName>) -> (copy: Vec<JSONModelMktName>)
    ensures
        copy.deep_view() == list.deep_view(),
{
    let mut copy: Vec<JSONModelMktName> = Vec::new();
    let mut i: usize = 0;
    while i < list.len()
        invariant
            0 <= i <= list.len(),
            copy.len() == i,
            forall|j: int| 0 <= j < i ==> (#[trigger] copy[j])@ == list[j]@,
        decreases list.len() - i,
    {
        copy.push(list[i].clone());
        i = i + 1;
    }
    assert(copy.deep_view() =~= list.deep_view());
    copy
}

/// Versions grouped by operating system.
pub type VersionGroups = Seq<(Seq<char>, Seq<Seq<char>>)>;

/// Devices, each by model and marketing name, grouped by make.
pub type DeviceGroups = Seq<(Seq<char>, Seq<(Seq<char>, Seq<char>)>)>;

/// Mathematical content of a [`Catalog`].
pub struct CatalogModel {
    pub versions: VersionGroups,
    pub devices: DeviceGroups,
}

impl CatalogModel {
    /// The catalog before anything was loaded, and after it was cleared.
    pub open spec fn empty() -> CatalogModel {
        CatalogModel { versions: Seq::empty(), devices: Seq::empty() }
    }

    /// No operating system and no make is filed twice.
    pub open spec fn valid(self) -> bool {
        distinct_keys(self.versions) && distinct_keys(self.devices)
    }
}

/// What the client remembers of the server's lists.
pub struct Catalog {
    os_versions: Vec<(String, Vec<String>)>,
    makes: Vec<(String, Vec<JSONModelMktName>)>,
}

impl View for Catalog {
    type V = CatalogModel;

    closed spec fn view(&self) -> CatalogModel {
        CatalogModel { versions: self.os_versions.deep_view(), devices: self.makes.deep_view() }
    }
}

impl Catalog {
    #[verifier::type_invariant]
    spec fn keys_once(self) -> bool {
        distinct_keys(self.os_versions.deep_view()) && distinct_keys(self.makes.deep_view())
    }

    /// A catalog that holds nothing.
    pub fn new() -> (catalog: Catalog)
        ensures
            catalog@ == CatalogModel::empty(),
    {
        let catalog = Catalog { os_versions: Vec::new(), makes: Vec::new() };
        assert(catalog.os_versions.deep_view() =~= Seq::empty());
        assert(catalog.makes.deep_view() =~= Seq::empty());
        catalog
    }

    /// Forgets both lists.
    pub fn clear(&mut self)
        ensures
            final(self)@ == CatalogModel::empty(),
    {
        let empty = Catalog::new();
        *self = empty;
    }

    /// Whether the list of operating systems was loaded.
    pub fn has_os_data(&self) -> (loaded: bool)
        ensures
            loaded == (self@.versions.len() > 0),
            self@.valid(),
    {
        proof {
            use_type_invariant(self);
        }
        self.os_versions.len() > 0
    }

    /// Whether the list of makes was loaded.
    pub fn has_makes_data(&self) -> (loaded: bool)
        ensures
            loaded == (self@.devices.len() > 0),
            self@.valid(),
    {
        proof {
            use_type_invariant(self);
        }
        self.makes.len() > 0
    }

    /// Replaces the list of operating systems by what the server sent.
    pub fn load_os_data(&mut self, pairs: &Vec<JSONDeviceOsVersions>)
        ensures
            final(self)@.versions == grouped(pairs.deep_view()),
            final(self)@.devices == old(self)@.devices,
            final(self)@.valid(),
    {
        proof {
            use_type_invariant(&*self);
            law_grouped(pairs.deep_view(), Seq::empty());
        }
        self.os_versions = group_os_versions(pairs);
    }

    /// Replaces the list of makes by what the server sent.
    pub fn load_makes_data(&mut self, models: &Vec<JSONMakeModel>)
        ensures
            final(self)@.devices == grouped(models.deep_view()),
            final(self)@.versions == old(self)@.versions,
            final(self)@.valid(),
    {
        proof {
            use_type_invariant(&*self);
            law_grouped(models.deep_view(), Seq::empty());
        }
        self.makes = group_makes(models);
    }

    /// The operating systems, in the order in which the server first named
    /// them.
    pub fn all_oses(&self) -> (names: Vec<String>)
        ensures
            names.deep_view() == keys_of(self@.versions),
    {
        group_names(&self.os_versions)
    }

    /// The makes, in the order in which the server first named them.
    pub fn all_makes(&self) -> (names: Vec<String>)
        ensures
            names.deep_view() == keys_of(self@.devices),
    {
        group_names(&self.makes)
    }

    /// The versions of the operating system `os_name`, without the empty
    /// ones, in ascending order; nothing if the catalog does not know it.
    pub fn versions_for_os(&self, os_name: &str) -> (found: Option<Vec<String>>)
        ensures
            match found {
                Some(versions) => {
                    &&& has_key(self@.versions, os_name@)
                    &&& ascending(versions.deep_view())
                    &&& versions.deep_view().to_multiset() == non_empty_names(
                        lookup(self@.versions, os_name@).unwrap(),
                    ).to_multiset()
                },
                None => !has_key(self@.versions, os_name@),
            },
    {
        proof {
            use_type_invariant(self);
        }
        match group_index(&self.os_versions, os_name) {
            Some(i) => {
                proof {
                    let groups = self.os_versions.deep_view();
                    assert(groups[i as int] == self.os_versions[i as int].deep_view());
                    lemma_index_unique(groups, os_name@, i as int);
                }
                let mut versions = keep_non_empty(&self.os_versions[i].1);
                sort_names(&mut versions);
                Some(versions)
            },
            None => {
                proof {
                    let groups = self.os_versions.deep_view();
                    if has_key(groups, os_name@) {
                        let j = choose|j: int|
                            0 <= j < groups.len() && (#[trigger] groups[j]).0 == os_name@;
                        assert(groups[j] == self.os_versions[j].deep_view());
                    }
                }
                None
            },
        }
    }

    /// The devices of the make `brand_name`, in the order in which the
    /// server listed them; nothing if the catalog does not know the make.
    pub fn devices_for_make(&self, brand_name: &str) -> (found: Option<Vec<JSONModelMktName>>)
        ensures
            found.deep_view() == lookup(self@.devices, brand_name@),
    {
        proof {
            use_type_invariant(self);
        }
        match group_index(&self.makes, brand_name) {
            Some(i) => {
                proof {
                    let groups = self.makes.deep_view();
                    assert(groups[i as int] == self.makes[i as int].deep_view());
                    lemma_index_unique(groups, brand_name@, i as int);
                }
                Some(clone_devices(&self.makes[i].1))
            },
            None => {
                proof {
                    let groups = self.makes.deep_view();
                    if has_key(groups, brand_name@) {
                        let j = choose|j: int|
                            0 <= j < groups.len() && (#[trigger] groups[j]).0 == brand_name@;
                        assert(groups[j] == self.makes[j].deep_view());
                    }
                }
                None
            },
        }
    }
}

} // verus!
