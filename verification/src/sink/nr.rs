//! The event-API sink backend: configuration and payload shape.
//!
//! The backend posts batches of flat events to a regional collector
//! endpoint.  The library derives the endpoint from the `account`,
//! `key` and `region` arguments and maps each record to the flat event
//! the collector expects; batching, JSON encoding, compression and the
//! HTTP client itself live outside the library.

use vstd::prelude::*;
use vstd::string::StringSliceAdditionalSpecFns;
use crate::data::{Record, RecordView};
use crate::sink::args::{spec_lookup, Args};
use crate::sink::{Error, ErrorView};
use crate::text::{
    append_bytes, bytes_eq, bytes_of, ipv4_string, join_spaces, spec_join, spec_quad, spec_upper,
    to_upper,
};

verus! {

/// Configuration of the event-API backend: the collector URL and the
/// insert key sent with every request.
#[derive(Clone, Debug, PartialEq, Eq)]
pub struct NrConfig {
    pub endpoint: Vec<u8>,
    pub key: Vec<u8>,
}

/// Mathematical content of an [`NrConfig`].
#[verifier::ext_equal]
pub ghost struct NrConfigView {
    pub endpoint: Seq<u8>,
    pub key: Seq<u8>,
}

impl View for NrConfig {
    type V = NrConfigView;

    open spec fn view(&self) -> NrConfigView {
        NrConfigView { endpoint: self.endpoint@, key: self.key@ }
    }
}

/// The collector URL for an account at a regional host.
pub open spec fn spec_nr_endpoint(host: Seq<u8>, account: Seq<u8>) -> Seq<u8> {
    "https://".spec_bytes() + host + "/v1/accounts/".spec_bytes() + account
        + "/events".spec_bytes()
}

/// The collector host of a region name, compared case-insensitively:
/// `US` and `EU` are the known regions.
pub open spec fn spec_region_host(region: Seq<u8>) -> Option<Seq<u8>> {
    if spec_upper(region) == "US".spec_bytes() {
        Some("insights-collector.newrelic.com".spec_bytes())
    } else if spec_upper(region) == "EU".spec_bytes() {
        Some("insights-collector.eu01.nr-data.net".spec_bytes())
    } else {
        None
    }
}

/// What configuring the backend from the given arguments yields:
/// `account` and `key` are required, `region` defaults to `US`, and an
/// unknown region is rejected.
pub open spec fn spec_nr_config(pairs: Seq<(Seq<u8>, Seq<u8>)>) -> Result<NrConfigView, ErrorView> {
    match spec_lookup(pairs, "account".spec_bytes()) {
        None => Err(ErrorView::MissingArg("account".spec_bytes())),
        Some(account) => match spec_lookup(pairs, "key".spec_bytes()) {
            None => Err(ErrorView::MissingArg("key".spec_bytes())),
            Some(key) => {
                let region = match spec_lookup(pairs, "region".spec_bytes()) {
                    Some(r) => r,
                    None => "US".spec_bytes(),
                };
                match spec_region_host(region) {
                    Some(host) => Ok(
                        NrConfigView { endpoint: spec_nr_endpoint(host, account), key },
                    ),
                    None => Err(ErrorView::InvalidRegion(region)),
                }
            },
        },
    }
}

/// Build the collector URL.
fn nr_endpoint(host: &[u8], account: &[u8]) -> (v: Vec<u8>)
    ensures
        v@ == spec_nr_endpoint(host@, account@),
{
    let mut v: Vec<u8> = Vec::new();
    append_bytes(&mut v, "https://".as_bytes());
    append_bytes(&mut v, host);
    append_bytes(&mut v, "/v1/accounts/".as_bytes());
    append_bytes(&mut v, account);
    append_bytes(&mut v, "/events".as_bytes());
    v
}

impl NrConfig {
    /// Configure the backend from sink arguments.
    pub fn from_args(args: &Args) -> (r: Result<NrConfig, Error>)
        ensures
            match r {
                Ok(c) => spec_nr_config(args@) == Ok::<NrConfigView, ErrorView>(c@),
                Err(e) => spec_nr_config(args@) == Err::<NrConfigView, ErrorView>(e@),
            },
    {
        let account = match args.get("account".as_bytes()) {
            Ok(v) => v,
            Err(e) => {
                return Err(e);
            },
        };
        let key = match args.get("key".as_bytes()) {
            Ok(v) => v,
            Err(e) => {
                return Err(e);
            },
        };
        let us: &[u8] = "US".as_bytes();
        let region: &[u8] = match args.opt("region".as_bytes()) {
            Some(r) => r.as_slice(),
            None => us,
        };
        let upper = to_upper(region);
        let host: &[u8] = if bytes_eq(upper.as_slice(), "US".as_bytes()) {
            "insights-collector.newrelic.com".as_bytes()
        } else if bytes_eq(upper.as_slice(), "EU".as_bytes()) {
            "insights-collector.eu01.nr-data.net".as_bytes()
        } else {
            let bad = bytes_of(region, 0, region.len());
            proof {
                assert(bad@ =~= region@);
            }
            return Err(Error::InvalidRegion(bad));
        };
        let endpoint = nr_endpoint(host, account.as_slice());
        let key_owned = bytes_of(key.as_slice(), 0, key.len());
        proof {
            assert(key_owned@ =~= key@);
        }
        let c = NrConfig { endpoint, key: key_owned };
        proof {
            assert(c@ =~= spec_nr_config(args@)->Ok_0);
        }
        Ok(c)
    }
}

/// One flat event as the collector receives it, all attribution
/// rendered as text.  The container fields are empty when the process
/// ran in none.
#[derive(Clone, Debug, PartialEq, Eq)]
pub struct NrEvent {
    pub event_type: String,
    pub timestamp: u64,
    pub event: String,
    pub source_ip: String,
    pub source_port: u16,
    pub source_host: String,
    pub destination_ip: String,
    pub destination_port: u16,
    pub pid: i32,
    pub cmd: String,
    pub container_id: String,
    pub container_name: String,
    pub container_image: String,
    pub rx: u32,
    pub tx: u32,
}

/// Mathematical content of an [`NrEvent`].
#[verifier::ext_equal]
pub ghost struct NrEventView {
    pub event_type: Seq<char>,
    pub timestamp: u64,
    pub event: Seq<char>,
    pub source_ip: Seq<char>,
    pub source_port: u16,
    pub source_host: Seq<char>,
    pub destination_ip: Seq<char>,
    pub destination_port: u16,
    pub pid: int,
    pub cmd: Seq<char>,
    pub container_id: Seq<char>,
    pub container_name: Seq<char>,
    pub container_image: Seq<char>,
    pub rx: u32,
    pub tx: u32,
}

impl View for NrEvent {
    type V = NrEventView;

    open spec fn view(&self) -> NrEventView {
        NrEventView {
            event_type: self.event_type@,
            timestamp: self.timestamp,
            event: self.event@,
            source_ip: self.source_ip@,
            source_port: self.source_port,
            source_host: self.source_host@,
            destination_ip: self.destination_ip@,
            destination_port: self.destination_port,
            pid: self.pid as int,
            cmd: self.cmd@,
            container_id: self.container_id@,
            container_name: self.container_name@,
            container_image: self.container_image@,
            rx: self.rx,
            tx: self.tx,
        }
    }
}

/// The flat event a record becomes: addresses in dotted-quad form, the
/// command line joined with spaces, container identity when present and
/// empty otherwise.
pub open spec fn spec_nr_event(r: RecordView) -> NrEventView {
    NrEventView {
        event_type: "ContainerVisibility"@,
        timestamp: r.timestamp,
        event: r.event,
        source_ip: spec_quad(r.src.addr),
        source_port: r.src.port,
        source_host: r.hostname,
        destination_ip: spec_quad(r.dst.addr),
        destination_port: r.dst.port,
        pid: r.process.pid,
        cmd: spec_join(r.process.command),
        container_id: match r.process.container {
            Some(c) => c.id,
            None => Seq::empty(),
        },
        container_name: match r.process.container {
            Some(c) => c.name,
            None => Seq::empty(),
        },
        container_image: match r.process.container {
            Some(c) => c.image,
            None => Seq::empty(),
        },
        rx: r.rx,
        tx: r.tx,
    }
}

/// Map one record to the flat event the collector expects.
pub fn nr_event(r: &Record) -> (e: NrEvent)
    ensures
        e@ == spec_nr_event(r@),
{
    let (container_id, container_name, container_image) = match &r.process.container {
        Some(c) => (c.id.clone(), c.name.clone(), c.image.clone()),
        None => (String::new(), String::new(), String::new()),
    };
    let e = NrEvent {
        event_type: "ContainerVisibility".to_owned(),
        timestamp: r.timestamp,
        event: r.event.clone(),
        source_ip: ipv4_string(r.src.addr),
        source_port: r.src.port,
        source_host: r.hostname.clone(),
        destination_ip: ipv4_string(r.dst.addr),
        destination_port: r.dst.port,
        pid: r.process.pid,
        cmd: join_spaces(&r.process.command),
        container_id,
        container_name,
        container_image,
        rx: r.rx,
        tx: r.tx,
    };
    proof {
        assert(e@ =~= spec_nr_event(r@));
    }
    e
}

} // verus!
