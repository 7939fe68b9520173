use std::collections::HashMap;

use wmclient::client::{server_url, wm_client_user_agent};
use wmclient::{
    JSONDeviceData, JSONInfoData, LookupStep, PendingLookup, WmClient, WmError,
    DEVICE_ID_CACHE_TYPE, USERAGENT_CACHE_TYPE,
};

fn names(list: &[&str]) -> Vec<String> {
    list.iter().map(|name| name.to_string()).collect()
}

fn server_info() -> JSONInfoData {
    JSONInfoData {
        wurfl_api_version: "1.12.0".to_string(),
        wm_version: "2.1.0".to_string(),
        wurfl_info: "wurfl.zip".to_string(),
        important_headers: names(&["User-Agent", "X-UCBrowser-Device-UA", "Device-Stock-UA"]),
        static_caps: names(&["model_name", "brand_name", "is_tablet", "is_wireless_device"]),
        virtual_caps: names(&["is_ios", "form_factor", "is_app", "complete_device_name"]),
        ltime: "2021-09-01 10:00:00".to_string(),
    }
}

fn create_test_client() -> Result<WmClient, WmError> {
    WmClient::new("http", "localhost", "8080", "", Ok(server_info()))
}

fn connection_refused() -> WmError {
    WmError { msg: "error sending request: connection refused".to_string() }
}

fn device(ltime: &str, capabilities: &[(&str, &str)]) -> JSONDeviceData {
    let mut map = HashMap::new();
    for (name, value) in capabilities {
        map.insert(name.to_string(), value.to_string());
    }
    JSONDeviceData { capabilities: map, error: "".to_string(), mtime: 1, ltime: ltime.to_string() }
}

fn nokia() -> JSONDeviceData {
    device(
        "2021-09-01 10:00:00",
        &[("is_mobile", "true"), ("form_factor", "Feature Phone"), ("wurfl_id", "nokia_generic_series40")],
    )
}

/// Plays both the caller and the server: runs one step, answering a fetch
/// with `response`, and counts the fetches.
fn finish(
    client: &mut WmClient,
    step: LookupStep,
    response: Result<JSONDeviceData, WmError>,
    fetches: &mut usize,
) -> Result<JSONDeviceData, WmError> {
    match step {
        LookupStep::Hit(record) => Ok(record),
        LookupStep::Fetch(pending) => {
            *fetches += 1;
            client.complete_lookup(pending.cache_type, pending.cache_key, response)
        }
    }
}

fn pending_of(step: LookupStep) -> PendingLookup {
    match step {
        LookupStep::Fetch(pending) => pending,
        LookupStep::Hit(_) => panic!("the cache answered"),
    }
}

fn _internal_test_lookup_device_id(client: &mut WmClient, fetches: &mut usize) {
    let step = client.lookup_device_id("nokia_generic_series40".to_string());
    let device_res = finish(client, step, Ok(nokia()), fetches);
    assert!(device_res.is_ok());
    let device = device_res.unwrap();
    assert!(device.capabilities.len() > 0);
    assert_eq!("true", device.capabilities.get("is_mobile").unwrap().as_str());
    assert_eq!("Feature Phone", device.capabilities.get("form_factor").unwrap().as_str());
}

#[test]
fn create_with_server_down_test() {
    let res = WmClient::new("http", "localhost", "18080", "", Err(connection_refused()));
    assert!(res.is_err());
}

#[test]
fn create_with_empty_server_values_test() {
    let res = WmClient::new("", "", "", "", Err(connection_refused()));
    assert!(res.is_err());
}

#[test]
fn test_single_lookup_device_id() {
    let client_res = create_test_client();
    assert!(client_res.is_ok());
    let mut client = client_res.unwrap();
    let mut fetches = 0;
    _internal_test_lookup_device_id(&mut client, &mut fetches);
}

#[test]
fn test_multiple_lookup_device_id() {
    let cl_res = create_test_client();
    assert!(cl_res.is_ok());
    let mut client = cl_res.unwrap();
    client.set_cache_size(100);
    let mut fetches = 0;
    for _i in 0..50 {
        _internal_test_lookup_device_id(&mut client, &mut fetches);
    }
    let sizes = client.get_actual_cache_sizes();
    // Cache is hit the first time, then it is always reused
    assert_eq!(1, sizes.0);
    assert_eq!(1, fetches);
}

#[test]
fn creation_error_has_the_fixed_text() {
    let error = WmClient::new("http", "localhost", "18080", "", Err(connection_refused()))
        .err()
        .unwrap();
    assert_eq!(
        "Unable to create WURFL Microservice client: unable to get info from WM server",
        error.msg
    );
    assert_eq!(error.msg, error.message());
}

#[test]
fn a_new_client_lists_capabilities_in_ascending_order() {
    let client = create_test_client().unwrap();
    assert_eq!(
        names(&["brand_name", "is_tablet", "is_wireless_device", "model_name"]),
        client.static_caps
    );
    assert_eq!(
        names(&["complete_device_name", "form_factor", "is_app", "is_ios"]),
        client.virtual_caps
    );
    assert_eq!(
        names(&["User-Agent", "X-UCBrowser-Device-UA", "Device-Stock-UA"]),
        client.important_headers
    );
    assert_eq!((0, 0), client.get_actual_cache_sizes());
    assert_eq!("0.1.0", client.get_api_version());
    assert_eq!("rust-wmclient-api-0.1.0", client.get_wm_client_user_agent());
}

#[test]
fn capabilities_are_found_by_name() {
    let client = create_test_client().unwrap();
    assert!(client.has_static_capability("brand_name"));
    assert!(client.has_static_capability("is_tablet"));
    assert!(!client.has_static_capability("unknown_static_cap"));
    assert!(!client.has_static_capability("form_factor"));
    assert!(client.has_virtual_capability("form_factor"));
    assert!(client.has_virtual_capability("complete_device_name"));
    assert!(!client.has_virtual_capability("unknown_vcap"));
    assert!(!client.has_virtual_capability("Form_Factor"));
}

#[test]
fn urls_are_built_from_the_parts() {
    let client = create_test_client().unwrap();
    assert_eq!("http://localhost:8080/v2/getinfo/json", client._create_url("/v2/getinfo/json"));
    let based =
        WmClient::new("https", "example.org", "443", "wm", Ok(server_info())).unwrap();
    assert_eq!(
        "https://example.org:443/wm/v2/lookupdeviceid/json",
        based._create_url("/v2/lookupdeviceid/json")
    );
}

#[test]
fn lookup_by_user_agent_says_what_to_fetch() {
    let mut client = create_test_client().unwrap();
    client.set_cache_size(10);
    let pending = pending_of(client.lookup_useragent("abc".to_string()));
    assert_eq!("/v2/lookupuseragent/json", pending.path);
    assert_eq!(USERAGENT_CACHE_TYPE, pending.cache_type);
    assert_eq!("900150983cd24fb0d6963f7d28e17f72", pending.cache_key);
    assert_eq!(
        Some(vec![("User-Agent".to_string(), "abc".to_string())]),
        pending.request.lookup_headers
    );
    assert_eq!(Some(Vec::<String>::new()), pending.request.requested_caps);
    assert_eq!(Some(Vec::<String>::new()), pending.request.requested_vcaps);
    assert_eq!(None, pending.request.wurfl_id);
    assert_eq!(
        Some("900150983cd24fb0d6963f7d28e17f72".to_string()),
        client._get_user_agent_cache_key(&vec![("User-Agent".to_string(), "abc".to_string())])
    );
}

#[test]
fn lookup_by_device_id_says_what_to_fetch() {
    let mut client = create_test_client().unwrap();
    client.set_requested_static_capabilities(Some(vec!["brand_name"]));
    let pending = pending_of(client.lookup_device_id("nokia_generic_series40".to_string()));
    assert_eq!("/v2/lookupdeviceid/json", pending.path);
    assert_eq!(DEVICE_ID_CACHE_TYPE, pending.cache_type);
    assert_eq!("nokia_generic_series40", pending.cache_key);
    assert_eq!(None, pending.request.lookup_headers);
    assert_eq!(Some(names(&["brand_name"])), pending.request.requested_caps);
    assert_eq!(Some(Vec::<String>::new()), pending.request.requested_vcaps);
    assert_eq!(Some("nokia_generic_series40".to_string()), pending.request.wurfl_id);
}

#[test]
fn lookup_by_headers_sends_the_important_headers_only() {
    let mut client = create_test_client().unwrap();
    let headers = vec![
        ("X-Requested-With".to_string(), "json_client".to_string()),
        ("CoNtent-TypE".to_string(), "application/json".to_string()),
        ("x-ucbrowser-device-ua".to_string(), "def".to_string()),
        ("UseR-AgEnt".to_string(), "abc".to_string()),
        ("device-stock-ua".to_string(), "".to_string()),
    ];
    let pending = pending_of(client.lookup_headers(headers));
    assert_eq!("/v2/lookuprequest/json", pending.path);
    assert_eq!(USERAGENT_CACHE_TYPE, pending.cache_type);
    assert_eq!(
        Some(vec![
            ("User-Agent".to_string(), "abc".to_string()),
            ("X-UCBrowser-Device-UA".to_string(), "def".to_string()),
        ]),
        pending.request.lookup_headers
    );
    // md5 of "abcdef"
    assert_eq!("e80b5017098950fc58aad83c8c14978e", pending.cache_key);
}

#[test]
fn lookup_with_no_headers_uses_the_key_of_the_empty_text() {
    let mut client = create_test_client().unwrap();
    client.set_cache_size(10);
    let mut fetches = 0;
    let step = client.lookup_headers(vec![]);
    let generic = device("2021-09-01 10:00:00", &[("wurfl_id", "generic")]);
    let first = finish(&mut client, step, Ok(generic), &mut fetches).unwrap();
    assert_eq!("generic", first.capabilities.get("wurfl_id").unwrap().as_str());
    let pending = pending_of(WmClient::new("http", "h", "1", "", Ok(server_info()))
        .unwrap()
        .lookup_headers(vec![]));
    assert_eq!("d41d8cd98f00b204e9800998ecf8427e", pending.cache_key);
    assert_eq!(Some(vec![]), pending.request.lookup_headers);
    // the empty user agent shares that key, and so the cached record
    let step = client.lookup_useragent("".to_string());
    let second = finish(&mut client, step, Err(connection_refused()), &mut fetches).unwrap();
    assert_eq!("generic", second.capabilities.get("wurfl_id").unwrap().as_str());
    assert_eq!(1, fetches);
    assert_eq!((0, 1), client.get_actual_cache_sizes());
}

#[test]
fn a_hit_asks_no_server() {
    let mut client = create_test_client().unwrap();
    client.set_cache_size(100);
    let ua = "Mozilla/5.0 (Linux; Android 7.0; SAMSUNG SM-G950F Build/NRD90M)";
    let samsung = device("2021-09-01 10:00:00", &[("model_name", "SM-G950F")]);
    let mut fetches = 0;
    for _i in 0..50 {
        let step = client.lookup_useragent(ua.to_string());
        let found = finish(&mut client, step, Ok(samsung.clone()), &mut fetches).unwrap();
        assert_eq!("SM-G950F", found.capabilities.get("model_name").unwrap().as_str());
    }
    assert_eq!(1, fetches);
    assert_eq!((0, 1), client.get_actual_cache_sizes());
}

#[test]
fn headers_in_another_order_and_casing_hit_the_same_entry() {
    let mut client = create_test_client().unwrap();
    client.set_cache_size(100);
    let mut fetches = 0;
    let first = vec![
        ("User-Agent".to_string(), "Mozilla/5.0".to_string()),
        ("X-UCBrowser-Device-UA".to_string(), "GT-S5253".to_string()),
        ("Accept-Encoding".to_string(), "gzip, deflate".to_string()),
    ];
    let second = vec![
        ("Content-Type".to_string(), "application/json".to_string()),
        ("x-ucbrowser-device-ua".to_string(), "GT-S5253".to_string()),
        ("UseR-AgEnt".to_string(), "Mozilla/5.0".to_string()),
    ];
    let samsung = device("2021-09-01 10:00:00", &[("brand_name", "Samsung")]);
    let step = client.lookup_headers(first);
    assert!(finish(&mut client, step, Ok(samsung), &mut fetches).is_ok());
    let step = client.lookup_headers(second);
    let found = finish(&mut client, step, Err(connection_refused()), &mut fetches).unwrap();
    assert_eq!("Samsung", found.capabilities.get("brand_name").unwrap().as_str());
    assert_eq!(1, fetches);
    assert_eq!((0, 1), client.get_actual_cache_sizes());
}

#[test]
fn without_a_cache_every_lookup_is_fetched() {
    let mut client = create_test_client().unwrap();
    let mut fetches = 0;
    for _i in 0..3 {
        _internal_test_lookup_device_id(&mut client, &mut fetches);
    }
    assert_eq!(3, fetches);
    assert_eq!((0, 0), client.get_actual_cache_sizes());
}

#[test]
fn with_cache_size_zero_every_lookup_is_fetched() {
    let mut client = create_test_client().unwrap();
    client.set_cache_size(0);
    let mut fetches = 0;
    for _i in 0..3 {
        _internal_test_lookup_device_id(&mut client, &mut fetches);
    }
    assert_eq!(3, fetches);
    assert_eq!((0, 0), client.get_actual_cache_sizes());
}

#[test]
fn a_failed_fetch_is_handed_on_and_caches_nothing() {
    let mut client = create_test_client().unwrap();
    client.set_cache_size(10);
    let mut fetches = 0;
    _internal_test_lookup_device_id(&mut client, &mut fetches);
    let step = client.lookup_useragent("abc".to_string());
    let failure = WmError { msg: "operation timed out".to_string() };
    let answer = finish(&mut client, step, Err(failure), &mut fetches);
    assert_eq!("operation timed out", answer.err().unwrap().msg);
    assert_eq!((1, 0), client.get_actual_cache_sizes());
}

#[test]
fn a_record_with_an_error_is_an_error_and_is_not_cached() {
    let mut client = create_test_client().unwrap();
    client.set_cache_size(10);
    let mut fetches = 0;
    _internal_test_lookup_device_id(&mut client, &mut fetches);
    let before = client.get_actual_cache_sizes();
    let mut unknown = device("2030-01-01 00:00:00", &[]);
    unknown.error = "device is missing".to_string();
    let step = client.lookup_device_id("doesnotexist".to_string());
    let result = finish(&mut client, step, Ok(unknown.clone()), &mut fetches);
    assert!(result.is_err());
    assert_eq!("device is missing", result.err().unwrap().msg);
    assert_eq!(before, client.get_actual_cache_sizes());
    // neither cached nor taken as a new dataset version: the old entry is still there
    let step = client.lookup_device_id("doesnotexist".to_string());
    assert!(finish(&mut client, step, Ok(unknown), &mut fetches).is_err());
    assert_eq!(3, fetches);
    _internal_test_lookup_device_id(&mut client, &mut fetches);
    assert_eq!(3, fetches);
    assert_eq!((1, 0), client.get_actual_cache_sizes());
}

#[test]
fn a_new_dataset_version_purges_before_the_record_is_filed() {
    let mut client = create_test_client().unwrap();
    client.set_cache_size(10);
    let mut fetches = 0;
    _internal_test_lookup_device_id(&mut client, &mut fetches);
    for ua in ["one", "two", "three"] {
        let step = client.lookup_useragent(ua.to_string());
        let found = device("2021-09-01 10:00:00", &[("model_name", ua)]);
        assert!(finish(&mut client, step, Ok(found), &mut fetches).is_ok());
    }
    assert_eq!((1, 3), client.get_actual_cache_sizes());

    let step = client.lookup_useragent("four".to_string());
    let fresh = device("2021-10-15 08:30:00", &[("model_name", "four")]);
    assert!(finish(&mut client, step, Ok(fresh), &mut fetches).is_ok());
    // everything older is gone, the record just fetched is there
    assert_eq!((0, 1), client.get_actual_cache_sizes());
    assert_eq!(5, fetches);
    let step = client.lookup_useragent("four".to_string());
    let again = finish(&mut client, step, Err(connection_refused()), &mut fetches).unwrap();
    assert_eq!("four", again.capabilities.get("model_name").unwrap().as_str());
    assert_eq!("2021-10-15 08:30:00", again.ltime);
    assert_eq!(5, fetches);
    let step = client.lookup_useragent("one".to_string());
    assert!(matches!(step, LookupStep::Fetch(_)));

    // the new version is the one remembered: the same version purges nothing
    let step = client.lookup_device_id("nokia_generic_series40".to_string());
    let nokia_again = device("2021-10-15 08:30:00", &[("is_mobile", "true")]);
    assert!(finish(&mut client, step, Ok(nokia_again), &mut fetches).is_ok());
    assert_eq!((1, 1), client.get_actual_cache_sizes());
}

#[test]
fn a_record_without_a_dataset_version_purges_nothing() {
    let mut client = create_test_client().unwrap();
    client.set_cache_size(10);
    let mut fetches = 0;
    _internal_test_lookup_device_id(&mut client, &mut fetches);
    let step = client.lookup_useragent("abc".to_string());
    assert!(finish(&mut client, step, Ok(device("", &[])), &mut fetches).is_ok());
    assert_eq!((1, 1), client.get_actual_cache_sizes());
}

#[test]
fn a_new_cache_size_drops_what_was_cached() {
    let mut client = create_test_client().unwrap();
    client.set_cache_size(10);
    let mut fetches = 0;
    _internal_test_lookup_device_id(&mut client, &mut fetches);
    assert_eq!((1, 0), client.get_actual_cache_sizes());
    client.set_cache_size(10);
    assert_eq!((0, 0), client.get_actual_cache_sizes());
    _internal_test_lookup_device_id(&mut client, &mut fetches);
    assert_eq!(2, fetches);
    client.clear_caches();
    assert_eq!((0, 0), client.get_actual_cache_sizes());
}

#[test]
fn requested_capabilities_keep_the_names_the_server_offers() {
    let mut client = create_test_client().unwrap();
    client.set_requested_static_capabilities(Some(vec!["brand_name", "invalid_name1", "is_ios"]));
    client.set_requested_virtual_capabilities(Some(vec!["is_ios", "invalid_name2", "brand_name"]));
    let pending = pending_of(client.lookup_useragent("abc".to_string()));
    assert_eq!(Some(names(&["brand_name"])), pending.request.requested_caps);
    assert_eq!(Some(names(&["is_ios"])), pending.request.requested_vcaps);

    // a list without any known name leaves the choice as it was
    client.set_requested_static_capabilities(Some(vec!["invalid_name1"]));
    client.set_requested_virtual_capabilities(Some(vec![]));
    let pending = pending_of(client.lookup_useragent("abc".to_string()));
    assert_eq!(Some(names(&["brand_name"])), pending.request.requested_caps);
    assert_eq!(Some(names(&["is_ios"])), pending.request.requested_vcaps);

    client.set_requested_static_capabilities(None);
    let pending = pending_of(client.lookup_useragent("abc".to_string()));
    assert_eq!(None, pending.request.requested_caps);
    assert_eq!(Some(names(&["is_ios"])), pending.request.requested_vcaps);
    client.set_requested_virtual_capabilities(None);
    let pending = pending_of(client.lookup_useragent("abc".to_string()));
    assert_eq!(None, pending.request.requested_caps);
    assert_eq!(None, pending.request.requested_vcaps);
}

#[test]
fn requested_capabilities_are_split_by_kind() {
    let mut client = create_test_client().unwrap();
    client.set_requested_capabilities(Some(vec![
        "is_app",
        "brand_name",
        "invalid_name1",
        "is_ios",
        "model_name",
    ]));
    let pending = pending_of(client.lookup_useragent("abc".to_string()));
    assert_eq!(Some(names(&["brand_name", "model_name"])), pending.request.requested_caps);
    assert_eq!(Some(names(&["is_app", "is_ios"])), pending.request.requested_vcaps);
    client.set_requested_capabilities(Some(vec!["invalid_name1"]));
    let pending = pending_of(client.lookup_useragent("abc".to_string()));
    assert_eq!(Some(Vec::<String>::new()), pending.request.requested_caps);
    assert_eq!(Some(Vec::<String>::new()), pending.request.requested_vcaps);
    client.set_requested_capabilities(None);
    let pending = pending_of(client.lookup_useragent("abc".to_string()));
    assert_eq!(None, pending.request.requested_caps);
    assert_eq!(None, pending.request.requested_vcaps);
}

#[test]
fn changing_the_requested_capabilities_purges_the_cache() {
    let mut client = create_test_client().unwrap();
    client.set_cache_size(2000);
    let req_caps: Vec<&str> = vec!["brand_name", "is_wireless_device", "is_app"];
    client.set_requested_static_capabilities(Some(req_caps.clone()));
    let ua = "Mozilla/5.0 (iPhone; CPU iPhone OS 10_2_1 like Mac OS X)";
    let iphone = device("2021-09-01 10:00:00", &[("brand_name", "Apple")]);
    let mut fetches = 0;
    let step = client.lookup_useragent(ua.to_string());
    assert!(finish(&mut client, step, Ok(iphone.clone()), &mut fetches).is_ok());
    assert_eq!((0, 1), client.get_actual_cache_sizes());

    client.set_requested_capabilities(Some(req_caps));
    assert_eq!((0, 0), client.get_actual_cache_sizes());

    let step = client.lookup_useragent(ua.to_string());
    assert!(finish(&mut client, step, Ok(iphone.clone()), &mut fetches).is_ok());
    assert_eq!((0, 1), client.get_actual_cache_sizes());
    client.set_requested_static_capabilities(Some(vec!["brand_name", "is_wireless_device"]));
    assert_eq!((0, 0), client.get_actual_cache_sizes());

    let step = client.lookup_useragent(ua.to_string());
    assert!(finish(&mut client, step, Ok(iphone.clone()), &mut fetches).is_ok());
    client.set_requested_virtual_capabilities(Some(vec!["is_app", "is_ios"]));
    assert_eq!((0, 0), client.get_actual_cache_sizes());

    // a list without a known name keeps the choice, and purges all the same
    let step = client.lookup_useragent(ua.to_string());
    assert!(finish(&mut client, step, Ok(iphone), &mut fetches).is_ok());
    assert_eq!((0, 1), client.get_actual_cache_sizes());
    client.set_requested_virtual_capabilities(Some(vec!["unknown_vcap"]));
    assert_eq!((0, 0), client.get_actual_cache_sizes());
    let pending = pending_of(client.lookup_useragent(ua.to_string()));
    assert_eq!(Some(names(&["is_app", "is_ios"])), pending.request.requested_vcaps);
    assert_eq!(4, fetches);
}

#[test]
fn addresses_and_the_client_name_need_no_client() {
    assert_eq!(
        "http://localhost:8080/v2/getinfo/json",
        server_url("http", "localhost", "8080", "", "/v2/getinfo/json")
    );
    assert_eq!(
        "https://h:1/base/v2/alldevices/json",
        server_url("https", "h", "1", "base", "/v2/alldevices/json")
    );
    assert_eq!("://:", server_url("", "", "", "", ""));
    assert_eq!("rust-wmclient-api-0.1.0", wm_client_user_agent());
}
