use wmclient::catalog::{distinct_names, group_makes, group_os_versions};
use wmclient::names::{clone_names, contains_name, keep_known, keep_non_empty, keep_other};
use wmclient::{
    Catalog, JSONDeviceOsVersions, JSONInfoData, JSONMakeModel, JSONModelMktName, Request,
    WmClient,
};

fn names(list: &[&str]) -> Vec<String> {
    list.iter().map(|name| name.to_string()).collect()
}

fn os(name: &str, version: &str) -> JSONDeviceOsVersions {
    JSONDeviceOsVersions { device_os: name.to_string(), device_os_version: version.to_string() }
}

fn model(brand: &str, model: &str, marketing: Option<&str>) -> JSONMakeModel {
    JSONMakeModel {
        brand_name: brand.to_string(),
        model_name: model.to_string(),
        marketing_name: marketing.map(|name| name.to_string()),
    }
}

fn os_list() -> Vec<JSONDeviceOsVersions> {
    vec![
        os("Android", "9.0"),
        os("iOS", "9.3"),
        os("Android", "10.0"),
        os("iOS", ""),
        os("iOS", "10.2"),
        os("Symbian", ""),
        os("Android", "4.4"),
    ]
}

fn device_list() -> Vec<JSONMakeModel> {
    vec![
        model("Nokia", "3310", None),
        model("Apple", "iPhone", Some("iPhone 7")),
        model("Nokia", "Lumia 920", Some("Lumia")),
        model("Apple", "iPad", None),
    ]
}

fn client() -> WmClient {
    let info = JSONInfoData {
        wurfl_api_version: "1.12.0".to_string(),
        wm_version: "2.1.0".to_string(),
        wurfl_info: "wurfl.zip".to_string(),
        important_headers: names(&["User-Agent"]),
        static_caps: names(&["brand_name"]),
        virtual_caps: names(&["is_ios"]),
        ltime: "2021-09-01".to_string(),
    };
    WmClient::new("http", "localhost", "8080", "", Ok(info)).unwrap()
}

#[test]
fn names_are_kept_once_in_order_of_first_occurrence() {
    assert_eq!(names(&["b", "a", "c"]), distinct_names(&names(&["b", "a", "b", "c", "a"])));
    assert_eq!(Vec::<String>::new(), distinct_names(&vec![]));
}

#[test]
fn versions_are_grouped_by_operating_system() {
    let groups = group_os_versions(&os_list());
    assert_eq!(
        vec![
            ("Android".to_string(), names(&["9.0", "10.0", "4.4"])),
            ("iOS".to_string(), names(&["9.3", "", "10.2"])),
            ("Symbian".to_string(), names(&[""])),
        ],
        groups
    );
}

#[test]
fn devices_are_grouped_by_make() {
    let groups = group_makes(&device_list());
    assert_eq!(2, groups.len());
    assert_eq!("Nokia", groups[0].0);
    assert_eq!("Apple", groups[1].0);
    let nokia: Vec<(String, String)> = groups[0]
        .1
        .iter()
        .map(|d| (d.model_name.clone(), d.marketing_name.clone()))
        .collect();
    assert_eq!(
        vec![
            ("3310".to_string(), "".to_string()),
            ("Lumia 920".to_string(), "Lumia".to_string())
        ],
        nokia
    );
}

#[test]
fn an_empty_catalog_knows_nothing() {
    let catalog = Catalog::new();
    assert!(!catalog.has_os_data());
    assert!(!catalog.has_makes_data());
    assert_eq!(Vec::<String>::new(), catalog.all_oses());
    assert_eq!(Vec::<String>::new(), catalog.all_makes());
    assert!(catalog.versions_for_os("iOS").is_none());
    assert!(catalog.devices_for_make("Nokia").is_none());
}

#[test]
fn a_catalog_is_loaded_and_cleared() {
    let mut catalog = Catalog::new();
    catalog.load_os_data(&os_list());
    assert!(catalog.has_os_data());
    assert!(!catalog.has_makes_data());
    catalog.load_makes_data(&device_list());
    assert!(catalog.has_makes_data());
    assert_eq!(names(&["Android", "iOS", "Symbian"]), catalog.all_oses());
    assert_eq!(names(&["Nokia", "Apple"]), catalog.all_makes());
    catalog.load_os_data(&vec![os("Tizen", "2.0")]);
    assert_eq!(names(&["Tizen"]), catalog.all_oses());
    assert_eq!(names(&["Nokia", "Apple"]), catalog.all_makes());
    catalog.clear();
    assert!(!catalog.has_os_data());
    assert!(!catalog.has_makes_data());
}

#[test]
fn versions_come_sorted_and_without_empty_ones() {
    let mut client = client();
    assert!(!client.has_device_os_data());
    client._load_device_os_data(&os_list());
    assert!(client.has_device_os_data());
    assert_eq!(names(&["Android", "iOS", "Symbian"]), client.get_all_oses());
    // in the order of strings, "10.0" comes before "4.4"
    assert_eq!(names(&["10.0", "4.4", "9.0"]), client.get_all_versions_for_os("Android").unwrap());
    assert_eq!(names(&["10.2", "9.3"]), client.get_all_versions_for_os("iOS").unwrap());
    assert_eq!(Vec::<String>::new(), client.get_all_versions_for_os("Symbian").unwrap());
}

#[test]
fn an_unknown_operating_system_is_an_error() {
    let mut client = client();
    client._load_device_os_data(&os_list());
    let os_versions_res = client.get_all_versions_for_os("Apple");
    assert!(os_versions_res.is_err());
    let err = os_versions_res.err().unwrap();
    assert!(err.msg.len() > 0);
    assert!(err.msg.contains("Apple"));
    assert!(err.msg.contains("does not exist"));
    assert_eq!(
        "Error getting data from WM server: Apple does not exist or has no versions",
        err.msg
    );
    assert!(client.get_all_versions_for_os("ios").is_err());
}

#[test]
fn devices_of_a_make_come_in_the_servers_order() {
    let mut client = client();
    assert!(!client.has_device_makes_data());
    client._load_device_makes_data(&device_list());
    assert!(client.has_device_makes_data());
    assert_eq!(names(&["Nokia", "Apple"]), client.get_all_device_makes());
    let devices: Vec<JSONModelMktName> =
        client.get_all_devices_for_make("Apple".to_string()).unwrap();
    assert_eq!(2, devices.len());
    assert_eq!("iPhone", devices[0].model_name);
    assert_eq!("iPhone 7", devices[0].marketing_name);
    assert_eq!("iPad", devices[1].model_name);
    assert_eq!("", devices[1].marketing_name);
}

#[test]
fn an_unknown_make_is_an_error() {
    let mut client = client();
    client._load_device_makes_data(&device_list());
    let devices_res = client.get_all_devices_for_make("NotExisting".to_string());
    assert!(devices_res.is_err());
    assert_eq!(
        "Error getting data from WM server: brand NotExisting does not exist or has no devices",
        devices_res.err().unwrap().msg
    );
}

#[test]
fn a_list_already_loaded_is_kept_until_the_caches_are_cleared() {
    let mut client = client();
    client._load_device_os_data(&os_list());
    client._load_device_makes_data(&device_list());
    client._load_device_os_data(&vec![os("Tizen", "2.0")]);
    client._load_device_makes_data(&vec![model("Sony", "Xperia", None)]);
    assert_eq!(names(&["Android", "iOS", "Symbian"]), client.get_all_oses());
    assert_eq!(names(&["Nokia", "Apple"]), client.get_all_device_makes());
    client.clear_caches();
    assert!(!client.has_device_os_data());
    assert!(!client.has_device_makes_data());
    client._load_device_os_data(&vec![os("Tizen", "2.0")]);
    assert_eq!(names(&["Tizen"]), client.get_all_oses());
}

#[test]
fn name_lists_are_searched_copied_and_filtered() {
    let known = names(&["b", "a"]);
    assert!(contains_name(&known, "a"));
    assert!(!contains_name(&known, "A"));
    assert!(!contains_name(&vec![], "a"));
    assert_eq!(known, clone_names(&known));
    assert_eq!(names(&["a", "b", "a"]), keep_known(&vec!["a", "x", "b", "a"], &known));
    assert_eq!(names(&["x"]), keep_other(&vec!["a", "x", "y"], &known, &names(&["x", "a"])));
    assert_eq!(names(&["a", "b"]), keep_non_empty(&names(&["", "a", "", "b"])));
}

#[test]
fn a_request_holds_what_it_was_given() {
    let request = Request::new(
        Some(vec![("User-Agent".to_string(), "abc".to_string())]),
        Some(names(&["brand_name"])),
        None,
        Some("generic".to_string()),
    );
    assert_eq!(Some(vec![("User-Agent".to_string(), "abc".to_string())]), request.lookup_headers);
    assert_eq!(Some(names(&["brand_name"])), request.requested_caps);
    assert_eq!(None, request.requested_vcaps);
    assert_eq!(Some("generic".to_string()), request.wurfl_id);
}
