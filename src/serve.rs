//! Resolving a device by identifier and building the invocation of the
//! streaming encoder that publishes it.
use crate::catalog::{catalog_view, Device, DeviceView};
use crate::number::{decimal, decimal_spec};
use vstd::prelude::*;

verus! {

/// The port of the destination URL when the caller gives none.
pub const DEFAULT_RTSP_PORT: u16 = 554;

/// The streaming encoder program.
pub const ENCODER_PROGRAM: &'static str = "ffmpeg";

/// `i` is the position of the first device in `catalog` with identifier `id`.
pub open spec fn first_match(catalog: Seq<DeviceView>, id: Seq<char>, i: int) -> bool {
    &&& 0 <= i < catalog.len()
    &&& catalog[i].id == id
    &&& forall|j: int| 0 <= j < i ==> catalog[j].id != id
}

/// No device in `catalog` has identifier `id`.
pub open spec fn absent(catalog: Seq<DeviceView>, id: Seq<char>) -> bool {
    forall|j: int| 0 <= j < catalog.len() ==> catalog[j].id != id
}

/// Finds the first device of the catalog, in catalog order, whose identifier
/// equals `identifier` exactly.
pub fn resolve<'a>(catalog: &'a Vec<Device>, identifier: &String) -> (r: Option<&'a Device>)
    ensures
        r is None <==> absent(catalog_view(catalog@), identifier@),
        r matches Some(d) ==> exists|i: int|
            first_match(catalog_view(catalog@), identifier@, i) && catalog@[i] == *d,
{
    let ghost cv = catalog_view(catalog@);
    let mut i: usize = 0;
    while i < catalog.len()
        invariant
            cv == catalog_view(catalog@),
            i <= catalog@.len(),
            forall|j: int| 0 <= j < i ==> cv[j].id != identifier@,
        decreases catalog.len() - i,
    {
        assert(cv[i as int] == catalog@[i as int]@);
        if catalog[i].id == *identifier {
            assert(first_match(cv, identifier@, i as int));
            return Some(&catalog[i]);
        }
        i = i + 1;
    }
    None
}

/// The port that a destination URL uses.
pub open spec fn effective_port(port: Option<u16>) -> nat {
    match port {
        Some(p) => p as nat,
        None => DEFAULT_RTSP_PORT as nat,
    }
}

/// `rtsp://localhost:<port>/<path>`, with the path taken verbatim.
pub open spec fn destination_url_spec(port: Option<u16>, path: Seq<char>) -> Seq<char> {
    "rtsp://localhost:"@ + decimal_spec(effective_port(port)) + "/"@ + path
}

/// Without a port the URL uses port 554; with one, it uses that port in
/// decimal.
pub proof fn lemma_destination_port(port: u16, path: Seq<char>)
    ensures
        destination_url_spec(None, path) == "rtsp://localhost:554/"@ + path,
        destination_url_spec(None, path) == destination_url_spec(Some(DEFAULT_RTSP_PORT), path),
        destination_url_spec(Some(port), path) == "rtsp://localhost:"@ + decimal_spec(port as nat)
            + "/"@ + path,
{
    reveal_strlit("rtsp://localhost:");
    reveal_strlit("rtsp://localhost:554/");
    reveal_strlit("/");
    reveal_with_fuel(decimal_spec, 3);
    assert(decimal_spec(554) =~= seq!['5', '5', '4']);
    assert("rtsp://localhost:"@ + decimal_spec(554) + "/"@ =~= "rtsp://localhost:554/"@);
}

/// Builds the URL that the stream is published at.
pub fn destination_url(port: Option<u16>, path: &str) -> (r: String)
    ensures
        r@ == destination_url_spec(port, path@),
{
    let p: u16 = match port {
        Some(p) => p,
        None => DEFAULT_RTSP_PORT,
    };
    let mut url = "rtsp://localhost:".to_owned();
    let digits = decimal(p as u64);
    url.append(digits.as_str());
    url.append("/");
    url.append(path);
    url
}

/// The encoder's arguments: no banner, the device read as a V4L2 capture
/// source, planar YUV 4:2:0 pixels, the fastest preset, 600 kbit/s, and RTSP
/// output to `url`.
pub open spec fn encoder_args_spec(device_path: Seq<char>, url: Seq<char>) -> Seq<Seq<char>> {
    seq![
        "-hide_banner"@,
        "-f"@,
        "v4l2"@,
        "-i"@,
        device_path,
        "-pix_fmt"@,
        "yuv420p"@,
        "-preset"@,
        "ultrafast"@,
        "-b:v"@,
        "600k"@,
        "-f"@,
        "rtsp"@,
        url,
    ]
}

/// Builds the encoder's argument list for streaming `device_path` to `url`.
pub fn encoder_args(device_path: &str, url: &str) -> (r: Vec<String>)
    ensures
        r@.map_values(|a: String| a@) == encoder_args_spec(device_path@, url@),
{
    let mut args: Vec<String> = Vec::new();
    args.push("-hide_banner".to_owned());
    args.push("-f".to_owned());
    args.push("v4l2".to_owned());
    args.push("-i".to_owned());
    args.push(device_path.to_owned());
    args.push("-pix_fmt".to_owned());
    args.push("yuv420p".to_owned());
    args.push("-preset".to_owned());
    args.push("ultrafast".to_owned());
    args.push("-b:v".to_owned());
    args.push("600k".to_owned());
    args.push("-f".to_owned());
    args.push("rtsp".to_owned());
    args.push(url.to_owned());
    assert(args@.map_values(|a: String| a@) =~= encoder_args_spec(device_path@, url@));
    args
}

/// What serving a device takes: the device found, the URL it is published
/// at, and the arguments for the encoder.
pub struct StreamLaunch {
    pub device_name: String,
    pub device_path: String,
    pub url: String,
    pub args: Vec<String>,
}

/// Resolves `device_id` in the catalog and, when a device has it, prepares
/// the encoder invocation that streams that device to
/// `rtsp://localhost:<port>/<rtsp_path>`.
pub fn plan_serve(
    catalog: &Vec<Device>,
    device_id: &String,
    rtsp_path: &str,
    rtsp_port: Option<u16>,
) -> (r: Option<StreamLaunch>)
    ensures
        r is None <==> absent(catalog_view(catalog@), device_id@),
        r matches Some(l) ==> exists|i: int|
            {
                &&& first_match(catalog_view(catalog@), device_id@, i)
                &&& l.device_name@ == catalog@[i].name@
                &&& l.device_path@ == catalog@[i].path@
                &&& l.url@ == destination_url_spec(rtsp_port, rtsp_path@)
                &&& l.args@.map_values(|a: String| a@) == encoder_args_spec(
                    catalog@[i].path@,
                    l.url@,
                )
            },
{
    match resolve(catalog, device_id) {
        None => None,
        Some(device) => {
            let url = destination_url(rtsp_port, rtsp_path);
            let args = encoder_args(device.path.as_str(), url.as_str());
            Some(
                StreamLaunch {
                    device_name: device.name.clone(),
                    device_path: device.path.clone(),
                    url,
                    args,
                },
            )
        },
    }
}

} // verus!
