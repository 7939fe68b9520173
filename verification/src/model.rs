//! Value types exchanged with the detection server.

use std::collections::HashMap;
use vstd::prelude::*;

verus! {

/// Mathematical content of a [`JSONDeviceData`].
pub struct DeviceRecord {
    pub capabilities: Map<Seq<char>, Seq<char>>,
    pub error: Seq<char>,
    pub mtime: int,
    pub ltime: Seq<char>,
}

/// Holds the detected device data received from the detection server.
#[derive(Debug)]
pub struct JSONDeviceData {
    /// Capability name to capability value.
    pub capabilities: HashMap<String, String>,
    /// Empty when the detection succeeded.
    pub error: String,
    /// Time the server spent on the match; never read by the cache.
    pub mtime: i64,
    /// Version of the dataset that produced this record.
    pub ltime: String,
}

impl View for JSONDeviceData {
    type V = DeviceRecord;

    open spec fn view(&self) -> DeviceRecord {
        DeviceRecord {
            capabilities: self.capabilities.deep_view(),
            error: self.error@,
            mtime: self.mtime as int,
            ltime: self.ltime@,
        }
    }
}

impl Clone for JSONDeviceData {
    /// An independent copy with the same content.
    fn clone(&self) -> (copy: Self)
        ensures
            copy@ == self@,
    {
        let capabilities = self.capabilities.clone();
        proof {
            reveal(vstd::std_specs::hash::hash_map_deep_view_impl);
            assert(capabilities.deep_view() =~= self.capabilities.deep_view());
        }
        JSONDeviceData {
            capabilities,
            error: self.error.clone(),
            mtime: self.mtime,
            ltime: self.ltime.clone(),
        }
    }
}

/// What the detection server says of itself.
#[derive(Debug)]
pub struct JSONInfoData {
    pub wurfl_api_version: String,
    pub wm_version: String,
    pub wurfl_info: String,
    /// The headers that matter for detection, in the order that fixes the
    /// cache key.
    pub important_headers: Vec<String>,
    pub static_caps: Vec<String>,
    pub virtual_caps: Vec<String>,
    /// Version of the dataset that the server has loaded.
    pub ltime: String,
}

/// One device of the server's list: its make, its model and, where it has
/// one, its marketing name.
#[derive(Debug)]
pub struct JSONMakeModel {
    pub brand_name: String,
    pub model_name: String,
    pub marketing_name: Option<String>,
}

impl DeepView for JSONMakeModel {
    type V = (Seq<char>, (Seq<char>, Seq<char>));

    /// The make, then model and marketing name; a device without a
    /// marketing name has the empty one.
    open spec fn deep_view(&self) -> (Seq<char>, (Seq<char>, Seq<char>)) {
        (
            self.brand_name@,
            (
                self.model_name@,
                match self.marketing_name {
                    Some(name) => name@,
                    None => Seq::empty(),
                },
            ),
        )
    }
}

/// Model and marketing name of one device of a given make.
#[derive(Debug)]
pub struct JSONModelMktName {
    pub model_name: String,
    pub marketing_name: String,
}

impl View for JSONModelMktName {
    type V = (Seq<char>, Seq<char>);

    open spec fn view(&self) -> (Seq<char>, Seq<char>) {
        (self.model_name@, self.marketing_name@)
    }
}

impl DeepView for JSONModelMktName {
    type V = (Seq<char>, Seq<char>);

    open spec fn deep_view(&self) -> (Seq<char>, Seq<char>) {
        self@
    }
}

impl Clone for JSONModelMktName {
    /// An independent copy with the same content.
    fn clone(&self) -> (copy: Self)
        ensures
            copy@ == self@,
    {
        JSONModelMktName {
            model_name: self.model_name.clone(),
            marketing_name: self.marketing_name.clone(),
        }
    }
}

/// One operating system version of the server's list.
#[derive(Debug)]
pub struct JSONDeviceOsVersions {
    pub device_os: String,
    pub device_os_version: String,
}

impl DeepView for JSONDeviceOsVersions {
    type V = (Seq<char>, Seq<char>);

    /// The operating system, then the version.
    open spec fn deep_view(&self) -> (Seq<char>, Seq<char>) {
        (self.device_os@, self.device_os_version@)
    }
}

/// What a lookup sends to the server.
#[derive(Debug)]
pub struct Request {
    /// The important headers of the request, name and value.
    pub lookup_headers: Option<Vec<(String, String)>>,
    pub requested_caps: Option<Vec<String>>,
    pub requested_vcaps: Option<Vec<String>>,
    pub wurfl_id: Option<String>,
}

/// Mathematical content of a [`Request`].
pub struct RequestModel {
    pub lookup_headers: Option<Seq<(Seq<char>, Seq<char>)>>,
    pub requested_caps: Option<Seq<Seq<char>>>,
    pub requested_vcaps: Option<Seq<Seq<char>>>,
    pub wurfl_id: Option<Seq<char>>,
}

impl View for Request {
    type V = RequestModel;

    open spec fn view(&self) -> RequestModel {
        RequestModel {
            lookup_headers: self.lookup_headers.deep_view(),
            requested_caps: self.requested_caps.deep_view(),
            requested_vcaps: self.requested_vcaps.deep_view(),
            wurfl_id: self.wurfl_id.deep_view(),
        }
    }
}

impl Request {
    /// A request made of the given parts.
    pub fn new(
        lh: Option<Vec<(String, String)>>,
        req_caps: Option<Vec<String>>,
        req_vcaps: Option<Vec<String>>,
        wid: Option<String>,
    ) -> (request: Request)
        ensures
            request.lookup_headers == lh,
            request.requested_caps == req_caps,
            request.requested_vcaps == req_vcaps,
            request.wurfl_id == wid,
    {
        Request { lookup_headers: lh, requested_caps: req_caps, requested_vcaps: req_vcaps, wurfl_id: wid }
    }
}

/// The error of every operation of the client that can fail.
#[derive(Debug)]
pub struct WmError {
    pub msg: String,
}

impl WmError {
    /// The text of the error.
    pub fn message(&self) -> (text: String)
        ensures
            text@ == self.msg@,
    {
        self.msg.clone()
    }
}

} // verus!
