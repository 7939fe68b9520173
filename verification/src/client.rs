//! The decisions of a detection client. The client never talks to the
//! server itself: a lookup first asks the client what to do, which either
//! answers from the cache or says what to fetch, and hands the server's
//! answer back for the client to file.

use crate::cache::{
    lemma_partition_names_differ, Cache, CacheModel, DEVICE_ID_CACHE_TYPE, USERAGENT_CACHE_TYPE,
};
use crate::catalog::{grouped, keys_of, Catalog, CatalogModel};
use crate::key::{cache_key, cache_key_of, important_values, select_important};
use crate::model::{
    DeviceRecord, JSONDeviceData, JSONDeviceOsVersions, JSONInfoData, JSONMakeModel,
    JSONModelMktName, Request, RequestModel, WmError,
};
use crate::names::{
    ascending, clone_optional_names, contains_name, keep_known, keep_other, known_names,
    non_empty_names, other_names, sort_names,
};
use crate::recency::{has_key, lemma_index_unique, lookup};
use vstd::prelude::*;
use vstd::string::*;

verus! {

/// Version of this client.
pub const API_VERSION: &'static str = "0.1.0";

/// Name of the one header that a lookup by user agent sends.
pub const USER_AGENT_HEADER: &'static str = "User-Agent";

/// Where the server describes itself.
pub const INFO_PATH: &'static str = "/v2/getinfo/json";

/// Where the server answers a lookup by user agent.
pub const LOOKUP_USERAGENT_PATH: &'static str = "/v2/lookupuseragent/json";

/// Where the server answers a lookup by device identifier.
pub const LOOKUP_DEVICE_ID_PATH: &'static str = "/v2/lookupdeviceid/json";

/// Where the server answers a lookup by request headers.
pub const LOOKUP_REQUEST_PATH: &'static str = "/v2/lookuprequest/json";

/// Where the server lists operating systems and their versions.
pub const ALL_OS_VERSIONS_PATH: &'static str = "/v2/alldeviceosversions/json";

/// Where the server lists devices.
pub const ALL_DEVICES_PATH: &'static str = "/v2/alldevices/json";

/// Mathematical content of a [`WmClient`].
pub struct ClientModel {
    pub scheme: Seq<char>,
    pub host: Seq<char>,
    pub port: Seq<char>,
    pub base_uri: Seq<char>,
    pub static_caps: Seq<Seq<char>>,
    pub virtual_caps: Seq<Seq<char>>,
    pub requested_static_caps: Option<Seq<Seq<char>>>,
    pub requested_virtual_caps: Option<Seq<Seq<char>>>,
    pub important_headers: Seq<Seq<char>>,
    /// `None` until a cache size was set.
    pub cache: Option<CacheModel>,
    pub catalog: CatalogModel,
    /// The dataset version last seen.
    pub ltime: Seq<char>,
}

impl ClientModel {
    /// The record that the cache holds under `key` in the partition that
    /// `cache_type` names.
    pub open spec fn cached(self, cache_type: Seq<char>, key: Seq<char>) -> Option<DeviceRecord> {
        match self.cache {
            Some(cache) => cache.get(cache_type, key),
            None => None,
        }
    }

    /// The client after the cache was read under `key`.
    pub open spec fn touched(self, cache_type: Seq<char>, key: Seq<char>) -> ClientModel {
        match self.cache {
            Some(cache) => ClientModel { cache: Some(cache.touch(cache_type, key)), ..self },
            None => self,
        }
    }

    /// The client after `record` was filed under `key`.
    pub open spec fn filed(self, cache_type: Seq<char>, key: Seq<char>, record: DeviceRecord)
        -> ClientModel {
        match self.cache {
            Some(cache) => ClientModel { cache: Some(cache.put(cache_type, key, record)), ..self },
            None => self,
        }
    }

    /// The client with both cache partitions and the catalog emptied.
    pub open spec fn purged(self) -> ClientModel {
        ClientModel {
            cache: match self.cache {
                Some(cache) => Some(cache.cleared()),
                None => None,
            },
            catalog: CatalogModel::empty(),
            ..self
        }
    }

    /// A response of dataset version `ltime` shows that the server changed
    /// its dataset.
    pub open spec fn outdated_by(self, ltime: Seq<char>) -> bool {
        ltime.len() > 0 && ltime != self.ltime
    }

    /// The client after it saw a response of dataset version `ltime`: a new
    /// version is remembered and purges everything that was cached.
    pub open spec fn refreshed(self, ltime: Seq<char>) -> ClientModel {
        if self.outdated_by(ltime) {
            ClientModel { ltime: ltime, ..self.purged() }
        } else {
            self
        }
    }

    /// The client after the server answered a lookup with `record`. A record
    /// that carries an error changes nothing. Any other record first purges
    /// the cache if its dataset version is new, and is then filed.
    pub open spec fn completed(self, cache_type: Seq<char>, key: Seq<char>, record: DeviceRecord)
        -> ClientModel {
        if record.error.len() > 0 {
            self
        } else {
            self.refreshed(record.ltime).filed(cache_type, key, record)
        }
    }

    /// Occupancy of the cache: the identifier partition first, then the
    /// header partition; zero without a cache.
    pub open spec fn cache_sizes(self) -> (nat, nat) {
        match self.cache {
            Some(cache) => cache.sizes(),
            None => (0, 0),
        }
    }

    /// The address of `path` on the server.
    pub open spec fn url_of(self, path: Seq<char>) -> Seq<char> {
        url_text(self.scheme, self.host, self.port, self.base_uri, path)
    }

    /// Every cache that the client holds is valid, and so is its catalog.
    pub open spec fn valid(self) -> bool {
        &&& self.catalog.valid()
        &&& match self.cache {
            Some(cache) => cache.valid(),
            None => true,
        }
    }
}

/// The address of `path` on a server: scheme, host and port, then the base
/// path if there is one, then `path`.
pub open spec fn url_text(
    scheme: Seq<char>,
    host: Seq<char>,
    port: Seq<char>,
    base_uri: Seq<char>,
    path: Seq<char>,
) -> Seq<char> {
    let origin = scheme + "://"@ + host + ":"@ + port;
    if base_uri.len() > 0 {
        origin + "/"@ + base_uri + path
    } else {
        origin + path
    }
}

/// The address of `path` on the server at `scheme`, `host` and `port`, below
/// `base_uri` if that is not empty.
pub fn server_url(scheme: &str, host: &str, port: &str, base_uri: &str, path: &str) -> (url: String)
    ensures
        url@ == url_text(scheme@, host@, port@, base_uri@, path@),
{
    let mut url = scheme.to_owned();
    url.append("://");
    url.append(host);
    url.append(":");
    url.append(port);
    if !base_uri.is_empty() {
        url.append("/");
        url.append(base_uri);
    }
    url.append(path);
    url
}

/// How a client of this version names itself to the server.
pub fn wm_client_user_agent() -> (user_agent: String)
    ensures
        user_agent@ == "rust-wmclient-api-"@ + API_VERSION@,
{
    let mut ua = String::new();
    ua.append("rust-wmclient-api-");
    ua.append(API_VERSION);
    assert(ua@ =~= "rust-wmclient-api-"@ + API_VERSION@);
    ua
}

/// A lookup that the server has to answer.
#[derive(Debug)]
pub struct PendingLookup {
    /// Where to send the request.
    pub path: String,
    /// What to send.
    pub request: Request,
    /// The partition in which the answer will be filed.
    pub cache_type: String,
    /// The key under which the answer will be filed.
    pub cache_key: String,
}

/// What a lookup does next.
#[derive(Debug)]
pub enum LookupStep {
    /// The cache held the record: this is the answer, and the server is not
    /// asked.
    Hit(JSONDeviceData),
    /// The cache did not hold the record: the server has to be asked, and
    /// its answer handed to [`WmClient::complete_lookup`].
    Fetch(PendingLookup),
}

/// The client's state: what the server offers, what the caller asked for,
/// and what was cached.
pub struct WmClient {
    _scheme: String,
    _host: String,
    _port: String,
    _base_uri: String,
    /// All static capabilities that the server can return, in ascending order.
    pub static_caps: Vec<String>,
    /// All virtual capabilities that the server can return, in ascending
    /// order.
    pub virtual_caps: Vec<String>,
    requested_static_caps: Option<Vec<String>>,
    requested_virtual_caps: Option<Vec<String>>,
    /// The headers that make up the cache key, in the server's order.
    pub important_headers: Vec<String>,
    _cache: Option<Cache>,
    _catalog: Catalog,
    _ltime: String,
}

impl View for WmClient {
    type V = ClientModel;

    closed spec fn view(&self) -> ClientModel {
        ClientModel {
            scheme: self._scheme@,
            host: self._host@,
            port: self._port@,
            base_uri: self._base_uri@,
            static_caps: self.static_caps.deep_view(),
            virtual_caps: self.virtual_caps.deep_view(),
            requested_static_caps: self.requested_static_caps.deep_view(),
            requested_virtual_caps: self.requested_virtual_caps.deep_view(),
            important_headers: self.important_headers.deep_view(),
            cache: match self._cache {
                Some(cache) => Some(cache@),
                None => None,
            },
            catalog: self._catalog@,
            ltime: self._ltime@,
        }
    }
}

/// The text of the error of a client that could not be created.
pub const UNABLE_TO_CREATE: &'static str =
    "Unable to create WURFL Microservice client: unable to get info from WM server";

impl WmClient {
    /// A client for the server at the given address, from the server's
    /// description of itself, or the error if the description could not be
    /// had. The new client has no cache, requests no capability in
    /// particular, and lists the server's capabilities in ascending order.
    pub fn new(
        scheme: &str,
        host: &str,
        port: &str,
        base_uri: &str,
        info: Result<JSONInfoData, WmError>,
    ) -> (created: Result<WmClient, WmError>)
        ensures
            match info {
                Ok(data) => {
                    &&& created is Ok
                    &&& created->Ok_0@.scheme == scheme@
                    &&& created->Ok_0@.host == host@
                    &&& created->Ok_0@.port == port@
                    &&& created->Ok_0@.base_uri == base_uri@
                    &&& created->Ok_0@.important_headers == data.important_headers.deep_view()
                    &&& ascending(created->Ok_0@.static_caps)
                    &&& created->Ok_0@.static_caps.to_multiset()
                        == data.static_caps.deep_view().to_multiset()
                    &&& ascending(created->Ok_0@.virtual_caps)
                    &&& created->Ok_0@.virtual_caps.to_multiset()
                        == data.virtual_caps.deep_view().to_multiset()
                    &&& created->Ok_0@.requested_static_caps == Some(Seq::<Seq<char>>::empty())
                    &&& created->Ok_0@.requested_virtual_caps == Some(Seq::<Seq<char>>::empty())
                    &&& created->Ok_0@.cache is None
                    &&& created->Ok_0@.catalog == CatalogModel::empty()
                    &&& created->Ok_0@.ltime == data.ltime@
                },
                Err(_) => created is Err && created->Err_0.msg@ == UNABLE_TO_CREATE@,
            },
    {
        match info {
            Ok(data) => {
                let mut static_caps = data.static_caps;
                sort_names(&mut static_caps);
                let mut virtual_caps = data.virtual_caps;
                sort_names(&mut virtual_caps);
                let requested_static: Vec<String> = Vec::new();
                let requested_virtual: Vec<String> = Vec::new();
                assert(requested_static.deep_view() =~= Seq::<Seq<char>>::empty());
                assert(requested_virtual.deep_view() =~= Seq::<Seq<char>>::empty());
                Ok(
                    WmClient {
                        _scheme: scheme.to_owned(),
                        _host: host.to_owned(),
                        _port: port.to_owned(),
                        _base_uri: base_uri.to_owned(),
                        static_caps,
                        virtual_caps,
                        requested_static_caps: Some(requested_static),
                        requested_virtual_caps: Some(requested_virtual),
                        important_headers: data.important_headers,
                        _cache: None,
                        _catalog: Catalog::new(),
                        _ltime: data.ltime,
                    },
                )
            },
            Err(_) => Err(WmError { msg: UNABLE_TO_CREATE.to_owned() }),
        }
    }

    /// The version of this client.
    pub fn get_api_version(&self) -> (version: &str)
        ensures
            version@ == API_VERSION@,
    {
        API_VERSION
    }

    /// Whether the server offers the static capability `cap_name`.
    pub fn has_static_capability(&self, cap_name: &str) -> (offered: bool)
        ensures
            offered == self@.static_caps.contains(cap_name@),
    {
        contains_name(&self.static_caps, cap_name)
    }

    /// Whether the server offers the virtual capability `vcap_name`.
    pub fn has_virtual_capability(&self, vcap_name: &str) -> (offered: bool)
        ensures
            offered == self@.virtual_caps.contains(vcap_name@),
    {
        contains_name(&self.virtual_caps, vcap_name)
    }

    /// The address of `path` on the server.
    pub fn _create_url(&self, path: &str) -> (url: String)
        ensures
            url@ == self@.url_of(path@),
    {
        server_url(
            self._scheme.as_str(),
            self._host.as_str(),
            self._port.as_str(),
            self._base_uri.as_str(),
            path,
        )
    }

    /// How this client names itself to the server.
    pub fn get_wm_client_user_agent(&self) -> (user_agent: String)
        ensures
            user_agent@ == "rust-wmclient-api-"@ + API_VERSION@,
    {
        wm_client_user_agent()
    }

    /// The cache key of a request that carries `headers`.
    pub fn _get_user_agent_cache_key(&self, headers: &Vec<(String, String)>) -> (key: Option<String>)
        ensures
            key is Some,
            key->Some_0@ == cache_key_of(self@.important_headers, headers.deep_view()),
    {
        Some(cache_key(&self.important_headers, headers))
    }

    /// Gives the client a new, empty cache whose header partition holds at
    /// most `ua_max_entries` entries; whatever was cached is dropped. Zero
    /// disables caching.
    pub fn set_cache_size(&mut self, ua_max_entries: usize)
        ensures
            final(self)@ == (ClientModel {
                cache: Some(CacheModel::fresh(ua_max_entries as nat)),
                ..old(self)@
            }),
    {
        self._cache = Some(Cache::new(ua_max_entries));
    }

    /// Empties both cache partitions and the catalog.
    pub fn clear_caches(&mut self)
        ensures
            final(self)@ == old(self)@.purged(),
    {
        match &mut self._cache {
            Some(cache) => {
                cache.clear();
            },
            None => {},
        }
        self._catalog.clear();
    }

    /// Occupancy of the cache: the identifier partition first, then the
    /// header partition; zero without a cache.
    pub fn get_actual_cache_sizes(&self) -> (sizes: (usize, usize))
        ensures
            sizes.0 == self@.cache_sizes().0,
            sizes.1 == self@.cache_sizes().1,
    {
        match &self._cache {
            Some(cache) => cache.get_actual_sizes(),
            None => (0, 0),
        }
    }

    /// Takes note of the dataset version of a response: a new version is
    /// remembered, and purges everything that was cached.
    pub fn _clear_caches_if_needed(&mut self, ltime: String)
        ensures
            final(self)@ == old(self)@.refreshed(ltime@),
    {
        if !ltime.as_str().is_empty() && self._ltime != ltime {
            self._ltime = ltime;
            self.clear_caches();
        }
    }

    /// Reads the cache under `key` in the partition that `cache_type` names.
    pub fn cache_lookup(&mut self, cache_type: &str, key: &String) -> (found: Option<JSONDeviceData>)
        ensures
            final(self)@ == old(self)@.touched(cache_type@, key@),
            match found {
                Some(record) => old(self)@.cached(cache_type@, key@) == Some(record@),
                None => old(self)@.cached(cache_type@, key@) is None,
            },
    {
        match &mut self._cache {
            Some(cache) => cache.get(cache_type.to_owned(), key.clone()),
            None => None,
        }
    }

    /// Starts a lookup by user agent: answers from the header partition, or
    /// says what to ask the server.
    pub fn lookup_useragent(&mut self, user_agent: String) -> (step: LookupStep)
        ensures
            final(self)@ == old(self)@.touched(
                USERAGENT_CACHE_TYPE@,
                cache_key_of(old(self)@.important_headers, seq![(USER_AGENT_HEADER@, user_agent@)]),
            ),
            match step {
                LookupStep::Hit(record) => old(self)@.cached(
                    USERAGENT_CACHE_TYPE@,
                    cache_key_of(
                        old(self)@.important_headers,
                        seq![(USER_AGENT_HEADER@, user_agent@)],
                    ),
                ) == Some(record@),
                LookupStep::Fetch(pending) => {
                    &&& old(self)@.cached(
                        USERAGENT_CACHE_TYPE@,
                        cache_key_of(
                            old(self)@.important_headers,
                            seq![(USER_AGENT_HEADER@, user_agent@)],
                        ),
                    ) is None
                    &&& pending.path@ == LOOKUP_USERAGENT_PATH@
                    &&& pending.cache_type@ == USERAGENT_CACHE_TYPE@
                    &&& pending.cache_key@ == cache_key_of(
                        old(self)@.important_headers,
                        seq![(USER_AGENT_HEADER@, user_agent@)],
                    )
                    &&& pending.request@ == (RequestModel {
                        lookup_headers: Some(seq![(USER_AGENT_HEADER@, user_agent@)]),
                        requested_caps: old(self)@.requested_static_caps,
                        requested_vcaps: old(self)@.requested_virtual_caps,
                        wurfl_id: None,
                    })
                },
            },
    {
        let headers: Vec<(String, String)> = vec![(USER_AGENT_HEADER.to_owned(), user_agent)];
        assert(headers.deep_view() =~= seq![(USER_AGENT_HEADER@, user_agent@)]);
        let key = cache_key(&self.important_headers, &headers);
        match self.cache_lookup(USERAGENT_CACHE_TYPE, &key) {
            Some(record) => LookupStep::Hit(record),
            None => {
                let request = Request::new(
                    Some(headers),
                    clone_optional_names(&self.requested_static_caps),
                    clone_optional_names(&self.requested_virtual_caps),
                    None,
                );
                LookupStep::Fetch(
                    PendingLookup {
                        path: LOOKUP_USERAGENT_PATH.to_owned(),
                        request,
                        cache_type: USERAGENT_CACHE_TYPE.to_owned(),
                        cache_key: key,
                    },
                )
            },
        }
    }

    /// Starts a lookup by device identifier: answers from the identifier
    /// partition, or says what to ask the server.
    pub fn lookup_device_id(&mut self, device_id: String) -> (step: LookupStep)
        ensures
            final(self)@ == old(self)@.touched(DEVICE_ID_CACHE_TYPE@, device_id@),
            match step {
                LookupStep::Hit(record) => old(self)@.cached(DEVICE_ID_CACHE_TYPE@, device_id@)
                    == Some(record@),
                LookupStep::Fetch(pending) => {
                    &&& old(self)@.cached(DEVICE_ID_CACHE_TYPE@, device_id@) is None
                    &&& pending.path@ == LOOKUP_DEVICE_ID_PATH@
                    &&& pending.cache_type@ == DEVICE_ID_CACHE_TYPE@
                    &&& pending.cache_key@ == device_id@
                    &&& pending.request@ == (RequestModel {
                        lookup_headers: None,
                        requested_caps: old(self)@.requested_static_caps,
                        requested_vcaps: old(self)@.requested_virtual_caps,
                        wurfl_id: Some(device_id@),
                    })
                },
            },
    {
        match self.cache_lookup(DEVICE_ID_CACHE_TYPE, &device_id) {
            Some(record) => LookupStep::Hit(record),
            None => {
                let request = Request::new(
                    None,
                    clone_optional_names(&self.requested_static_caps),
                    clone_optional_names(&self.requested_virtual_caps),
                    Some(device_id.clone()),
                );
                LookupStep::Fetch(
                    PendingLookup {
                        path: LOOKUP_DEVICE_ID_PATH.to_owned(),
                        request,
                        cache_type: DEVICE_ID_CACHE_TYPE.to_owned(),
                        cache_key: device_id,
                    },
                )
            },
        }
    }

    /// Starts a lookup by request headers: answers from the header
    /// partition, or says what to ask the server. Only the important headers
    /// count, whatever the casing of their names and the order of the
    /// request's headers.
    pub fn lookup_headers(&mut self, in_headers: Vec<(String, String)>) -> (step: LookupStep)
        ensures
            final(self)@ == old(self)@.touched(
                USERAGENT_CACHE_TYPE@,
                cache_key_of(old(self)@.important_headers, in_headers.deep_view()),
            ),
            match step {
                LookupStep::Hit(record) => old(self)@.cached(
                    USERAGENT_CACHE_TYPE@,
                    cache_key_of(old(self)@.important_headers, in_headers.deep_view()),
                ) == Some(record@),
                LookupStep::Fetch(pending) => {
                    &&& old(self)@.cached(
                        USERAGENT_CACHE_TYPE@,
                        cache_key_of(old(self)@.important_headers, in_headers.deep_view()),
                    ) is None
                    &&& pending.path@ == LOOKUP_REQUEST_PATH@
                    &&& pending.cache_type@ == USERAGENT_CACHE_TYPE@
                    &&& pending.cache_key@ == cache_key_of(
                        old(self)@.important_headers,
                        in_headers.deep_view(),
                    )
                    &&& pending.request@ == (RequestModel {
                        lookup_headers: Some(
                            important_values(old(self)@.important_headers, in_headers.deep_view()),
                        ),
                        requested_caps: old(self)@.requested_static_caps,
                        requested_vcaps: old(self)@.requested_virtual_caps,
                        wurfl_id: None,
                    })
                },
            },
    {
        let key = cache_key(&self.important_headers, &in_headers);
        match self.cache_lookup(USERAGENT_CACHE_TYPE, &key) {
            Some(record) => LookupStep::Hit(record),
            None => {
                let headers = select_important(&self.important_headers, &in_headers);
                let request = Request::new(
                    Some(headers),
                    clone_optional_names(&self.requested_static_caps),
                    clone_optional_names(&self.requested_virtual_caps),
                    None,
                );
                LookupStep::Fetch(
                    PendingLookup {
                        path: LOOKUP_REQUEST_PATH.to_owned(),
                        request,
                        cache_type: USERAGENT_CACHE_TYPE.to_owned(),
                        cache_key: key,
                    },
                )
            },
        }
    }

    /// Ends a lookup with what the server answered. A failure is handed on
    /// and changes nothing. A record that carries an error becomes that
    /// error and is not cached. Any other record is the answer: if its
    /// dataset version is new, everything cached is purged first; then the
    /// record is filed under the key of the lookup.
    pub fn complete_lookup(
        &mut self,
        cache_type: String,
        cache_key: String,
        outcome: Result<JSONDeviceData, WmError>,
    ) -> (answer: Result<JSONDeviceData, WmError>)
        ensures
            match outcome {
                Ok(record) => if record.error@.len() > 0 {
                    &&& answer is Err
                    &&& answer->Err_0.msg@ == record.error@
                    &&& final(self)@ == old(self)@
                } else {
                    &&& answer is Ok
                    &&& answer->Ok_0@ == record@
                    &&& final(self)@ == old(self)@.completed(cache_type@, cache_key@, record@)
                },
                Err(failure) => {
                    &&& answer is Err
                    &&& answer->Err_0.msg@ == failure.msg@
                    &&& final(self)@ == old(self)@
                },
            },
    {
        match outcome {
            Ok(record) => {
                if !record.error.as_str().is_empty() {
                    return Err(WmError { msg: record.error });
                }
                self._clear_caches_if_needed(record.ltime.clone());
                match &mut self._cache {
                    Some(cache) => {
                        cache.put(cache_type, cache_key, record.clone());
                    },
                    None => {},
                }
                Ok(record)
            },
            Err(failure) => Err(failure),
        }
    }

    /// Chooses the static capabilities that lookups ask for. `None` asks for
    /// all of them. Of a list, only the names that the server offers count;
    /// a list without any such name leaves the choice as it was. What was
    /// cached is purged in every case, since the cached records may have
    /// another shape than the records asked for from now on.
    pub fn set_requested_static_capabilities(&mut self, cap_list: Option<Vec<&str>>)
        ensures
            final(self)@ == match cap_list {
                None => ClientModel { requested_static_caps: None, ..old(self)@.purged() },
                Some(names) => if known_names(names.deep_view(), old(self)@.static_caps).len()
                    > 0 {
                    ClientModel {
                        requested_static_caps: Some(
                            known_names(names.deep_view(), old(self)@.static_caps),
                        ),
                        ..old(self)@.purged()
                    }
                } else {
                    old(self)@.purged()
                },
            },
    {
        match cap_list {
            None => {
                self.requested_static_caps = None;
            },
            Some(names) => {
                let cap_names = keep_known(&names, &self.static_caps);
                if cap_names.len() > 0 {
                    self.requested_static_caps = Some(cap_names);
                }
            },
        }
        self.clear_caches();
    }

    /// Chooses the virtual capabilities that lookups ask for. `None` asks
    /// for all of them. Of a list, only the names that the server offers
    /// count; a list without any such name leaves the choice as it was. What
    /// was cached is purged in every case.
    pub fn set_requested_virtual_capabilities(&mut self, vcap_list: Option<Vec<&str>>)
        ensures
            final(self)@ == match vcap_list {
                None => ClientModel { requested_virtual_caps: None, ..old(self)@.purged() },
                Some(names) => if known_names(names.deep_view(), old(self)@.virtual_caps).len()
                    > 0 {
                    ClientModel {
                        requested_virtual_caps: Some(
                            known_names(names.deep_view(), old(self)@.virtual_caps),
                        ),
                        ..old(self)@.purged()
                    }
                } else {
                    old(self)@.purged()
                },
            },
    {
        match vcap_list {
            None => {
                self.requested_virtual_caps = None;
            },
            Some(names) => {
                let virtual_cap_names = keep_known(&names, &self.virtual_caps);
                if virtual_cap_names.len() > 0 {
                    self.requested_virtual_caps = Some(virtual_cap_names);
                }
            },
        }
        self.clear_caches();
    }

    /// Chooses the capabilities that lookups ask for, static and virtual
    /// together. `None` asks for all of them. Of a list, each name goes to
    /// the static ones if the server offers it as static, else to the
    /// virtual ones if the server offers it as virtual, and is dropped
    /// otherwise. What was cached is purged in every case.
    pub fn set_requested_capabilities(&mut self, cap_list: Option<Vec<&str>>)
        ensures
            final(self)@ == match cap_list {
                None => ClientModel {
                    requested_static_caps: None,
                    requested_virtual_caps: None,
                    ..old(self)@.purged()
                },
                Some(names) => ClientModel {
                    requested_static_caps: Some(
                        known_names(names.deep_view(), old(self)@.static_caps),
                    ),
                    requested_virtual_caps: Some(
                        other_names(
                            names.deep_view(),
                            old(self)@.static_caps,
                            old(self)@.virtual_caps,
                        ),
                    ),
                    ..old(self)@.purged()
                },
            },
    {
        match cap_list {
            None => {
                self.requested_static_caps = None;
                self.requested_virtual_caps = None;
            },
            Some(names) => {
                let cap_names = keep_known(&names, &self.static_caps);
                let vcap_names = keep_other(&names, &self.static_caps, &self.virtual_caps);
                self.requested_static_caps = Some(cap_names);
                self.requested_virtual_caps = Some(vcap_names);
            },
        }
        self.clear_caches();
    }

    /// Whether the list of operating systems was loaded, so that the server
    /// need not be asked for it.
    pub fn has_device_os_data(&self) -> (loaded: bool)
        ensures
            loaded == (self@.catalog.versions.len() > 0),
    {
        self._catalog.has_os_data()
    }

    /// Whether the list of makes was loaded, so that the server need not be
    /// asked for it.
    pub fn has_device_makes_data(&self) -> (loaded: bool)
        ensures
            loaded == (self@.catalog.devices.len() > 0),
    {
        self._catalog.has_makes_data()
    }

    /// Files the server's list of operating system versions, unless a list
    /// is already there.
    pub fn _load_device_os_data(&mut self, os_version_pairs: &Vec<JSONDeviceOsVersions>)
        ensures
            final(self)@ == if old(self)@.catalog.versions.len() > 0 {
                old(self)@
            } else {
                ClientModel {
                    catalog: CatalogModel {
                        versions: grouped(os_version_pairs.deep_view()),
                        ..old(self)@.catalog
                    },
                    ..old(self)@
                }
            },
    {
        if !self._catalog.has_os_data() {
            self._catalog.load_os_data(os_version_pairs);
        }
    }

    /// Files the server's list of devices, unless a list is already there.
    pub fn _load_device_makes_data(&mut self, mk_models: &Vec<JSONMakeModel>)
        ensures
            final(self)@ == if old(self)@.catalog.devices.len() > 0 {
                old(self)@
            } else {
                ClientModel {
                    catalog: CatalogModel {
                        devices: grouped(mk_models.deep_view()),
                        ..old(self)@.catalog
                    },
                    ..old(self)@
                }
            },
    {
        if !self._catalog.has_makes_data() {
            self._catalog.load_makes_data(mk_models);
        }
    }

    /// The operating systems that the server knows, each once, in the order
    /// in which the server first named them.
    pub fn get_all_oses(&self) -> (names: Vec<String>)
        ensures
            names.deep_view() == keys_of(self@.catalog.versions),
    {
        self._catalog.all_oses()
    }

    /// The versions of the operating system `os_name`, without the empty
    /// ones, in ascending order; an error if the server does not know it.
    pub fn get_all_versions_for_os(&self, os_name: &str) -> (found: Result<Vec<String>, WmError>)
        ensures
            match found {
                Ok(versions) => {
                    &&& has_key(self@.catalog.versions, os_name@)
                    &&& ascending(versions.deep_view())
                    &&& versions.deep_view().to_multiset() == non_empty_names(
                        lookup(self@.catalog.versions, os_name@).unwrap(),
                    ).to_multiset()
                },
                Err(error) => {
                    &&& !has_key(self@.catalog.versions, os_name@)
                    &&& error.msg@ == "Error getting data from WM server: "@ + os_name@
                        + " does not exist or has no versions"@
                },
            },
    {
        match self._catalog.versions_for_os(os_name) {
            Some(versions) => Ok(versions),
            None => {
                let mut msg = String::new();
                msg.append("Error getting data from WM server: ");
                msg.append(os_name);
                msg.append(" does not exist or has no versions");
                assert(msg@ =~= "Error getting data from WM server: "@ + os_name@
                    + " does not exist or has no versions"@);
                Err(WmError { msg })
            },
        }
    }

    /// The makes that the server knows, each once, in the order in which the
    /// server first named them.
    pub fn get_all_device_makes(&self) -> (names: Vec<String>)
        ensures
            names.deep_view() == keys_of(self@.catalog.devices),
    {
        self._catalog.all_makes()
    }

    /// The devices of the make `brand_name`, each with model and marketing
    /// name, in the order in which the server listed them; an error if the
    /// server does not know the make.
    pub fn get_all_devices_for_make(&self, brand_name: String) -> (found: Result<
        Vec<JSONModelMktName>,
        WmError,
    >)
        ensures
            match found {
                Ok(devices) => lookup(self@.catalog.devices, brand_name@) == Some(
                    devices.deep_view(),
                ),
                Err(error) => {
                    &&& lookup(self@.catalog.devices, brand_name@) is None
                    &&& error.msg@ == "Error getting data from WM server: brand "@ + brand_name@
                        + " does not exist or has no devices"@
                },
            },
    {
        match self._catalog.devices_for_make(brand_name.as_str()) {
            Some(devices) => Ok(devices),
            None => {
                let mut msg = String::new();
                msg.append("Error getting data from WM server: brand ");
                msg.append(brand_name.as_str());
                msg.append(" does not exist or has no devices");
                assert(msg@ =~= "Error getting data from WM server: brand "@ + brand_name@
                    + " does not exist or has no devices"@);
                Err(WmError { msg })
            },
        }
    }
}

/// Invalidation: a record of a new dataset version leaves nothing of what
/// was cached before. Afterwards the partition of the lookup holds the new
/// record alone (nothing, if caching is disabled), the other partition and
/// the catalog are empty, and the new version is the one remembered.
pub proof fn law_new_version_purges(
    m: ClientModel,
    cache_type: Seq<char>,
    key: Seq<char>,
    record: DeviceRecord,
)
    requires
        m.valid(),
        m.cache is Some,
        record.error.len() == 0,
        m.outdated_by(record.ltime),
        cache_type == USERAGENT_CACHE_TYPE@ || cache_type == DEVICE_ID_CACHE_TYPE@,
    ensures
        m.completed(cache_type, key, record).ltime == record.ltime,
        m.completed(cache_type, key, record).catalog == CatalogModel::empty(),
        m.completed(cache_type, key, record).valid(),
        m.cache->Some_0.enabled() ==> m.completed(cache_type, key, record).cached(cache_type, key)
            == Some(record),
        cache_type == USERAGENT_CACHE_TYPE@ ==> m.completed(cache_type, key, record).cache_sizes()
            == (0nat, if m.cache->Some_0.enabled() { 1nat } else { 0nat }),
        cache_type == DEVICE_ID_CACHE_TYPE@ ==> m.completed(cache_type, key, record).cache_sizes()
            == (if m.cache->Some_0.enabled() { 1nat } else { 0nat }, 0nat),
{
    lemma_partition_names_differ();
    let cache = m.cache->Some_0;
    let cleared = cache.cleared();
    cache.lemma_valid_kept(cache_type, key, record);
    cleared.lemma_valid_kept(cache_type, key, record);
    assert(!has_key(cleared.headers, key));
    assert(!has_key(cleared.ids, key));
    let after = cleared.put(cache_type, key, record);
    if cache.enabled() {
        if cache_type == USERAGENT_CACHE_TYPE@ {
            assert(after.headers =~= seq![(key, record)]);
            lemma_index_unique(after.headers, key, 0);
        } else {
            assert(after.ids =~= seq![(key, record)]);
            lemma_index_unique(after.ids, key, 0);
        }
    }
}

/// Negative results are never cached: a record that carries an error leaves
/// the client, and so the sizes of both partitions, as they were.
pub proof fn law_error_not_cached(
    m: ClientModel,
    cache_type: Seq<char>,
    key: Seq<char>,
    record: DeviceRecord,
)
    requires
        record.error.len() > 0,
    ensures
        m.completed(cache_type, key, record) == m,
        m.completed(cache_type, key, record).cache_sizes() == m.cache_sizes(),
{
}

/// A record of the dataset version already seen is filed and purges
/// nothing: the other partition and the catalog stay as they were.
pub proof fn law_same_version_keeps(
    m: ClientModel,
    cache_type: Seq<char>,
    key: Seq<char>,
    record: DeviceRecord,
)
    requires
        record.error.len() == 0,
        !m.outdated_by(record.ltime),
    ensures
        m.completed(cache_type, key, record) == m.filed(cache_type, key, record),
        m.completed(cache_type, key, record).catalog == m.catalog,
        m.completed(cache_type, key, record).ltime == m.ltime,
{
}

} // verus!
