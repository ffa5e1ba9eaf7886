//! The remote-write sink backend: configuration and payload shape.
//!
//! The backend posts protobuf-encoded time series to a remote-write
//! endpoint.  The library derives the endpoint and the authorization
//! header from the sink arguments and maps each record to its two time
//! series — received and transmitted bytes — with the label set in
//! lexicographic name order, as remote write requires.  Protobuf
//! encoding, compression and the HTTP client live outside the library.

use vstd::prelude::*;
use vstd::string::StringSliceAdditionalSpecFns;
use base64::Engine;
use crate::data::{Record, RecordView};
use crate::sink::args::{spec_lookup, Args};
use crate::sink::{Error, ErrorView};
use crate::text::{
    append_bytes, bytes_of, i32_string, ipv4_string, join_spaces, spec_dec, spec_dec_signed,
    spec_join, spec_quad, u64_string,
};

verus! {

/// Configuration of the remote-write backend: the endpoint URL and, when
/// credentials were given, the value of the authorization header.
#[derive(Clone, Debug, PartialEq, Eq)]
pub struct PromConfig {
    pub endpoint: Vec<u8>,
    pub auth: Option<Vec<u8>>,
}

/// Mathematical content of a [`PromConfig`].
#[verifier::ext_equal]
pub ghost struct PromConfigView {
    pub endpoint: Seq<u8>,
    pub auth: Option<Seq<u8>>,
}

impl View for PromConfig {
    type V = PromConfigView;

    open spec fn view(&self) -> PromConfigView {
        PromConfigView {
            endpoint: self.endpoint@,
            auth: match self.auth {
                Some(a) => Some(a@),
                None => None,
            },
        }
    }
}

/// The base64 rendering of a byte string under the standard alphabet
/// with padding; the outside encoder computes it.
pub uninterp spec fn base64_of(b: Seq<u8>) -> Seq<u8>;

/// Relies on the base64 crate's standard engine: the standard alphabet
/// with padding, so the output holds four bytes for every started group
/// of three input bytes.
#[verifier::external_body]
fn base64_encode(data: &[u8]) -> (r: Vec<u8>)
    ensures
        r@ == base64_of(data@),
        r@.len() == 4 * ((data@.len() + 2) / 3),
{
    base64::engine::general_purpose::STANDARD.encode(data).into_bytes()
}

/// The value of the authorization header for the given credentials:
/// `Basic `, then `user:password` in base64.
pub open spec fn spec_basic_auth(user: Seq<u8>, password: Seq<u8>) -> Seq<u8> {
    "Basic ".spec_bytes() + base64_of(user + ":".spec_bytes() + password)
}

/// What configuring the backend from the given arguments yields: the
/// `endpoint` argument is required; `username` and `password` together
/// produce the authorization header and are otherwise ignored.
pub open spec fn spec_prom_config(pairs: Seq<(Seq<u8>, Seq<u8>)>) -> Result<
    PromConfigView,
    ErrorView,
> {
    match spec_lookup(pairs, "endpoint".spec_bytes()) {
        None => Err(ErrorView::MissingArg("endpoint".spec_bytes())),
        Some(endpoint) => {
            let auth = match (
                spec_lookup(pairs, "username".spec_bytes()),
                spec_lookup(pairs, "password".spec_bytes()),
            ) {
                (Some(user), Some(password)) => Some(spec_basic_auth(user, password)),
                _ => None,
            };
            Ok(PromConfigView { endpoint, auth })
        },
    }
}

impl PromConfig {
    /// Configure the backend from sink arguments.
    pub fn from_args(args: &Args) -> (r: Result<PromConfig, Error>)
        ensures
            match r {
                Ok(c) => spec_prom_config(args@) == Ok::<PromConfigView, ErrorView>(c@),
                Err(e) => spec_prom_config(args@) == Err::<PromConfigView, ErrorView>(e@),
            },
    {
        let endpoint = match args.get("endpoint".as_bytes()) {
            Ok(v) => {
                let owned = bytes_of(v.as_slice(), 0, v.len());
                proof {
                    assert(owned@ =~= v@);
                }
                owned
            },
            Err(e) => {
                return Err(e);
            },
        };
        let auth = match (args.opt("username".as_bytes()), args.opt("password".as_bytes())) {
            (Some(user), Some(password)) => {
                let mut plain: Vec<u8> = Vec::new();
                append_bytes(&mut plain, user.as_slice());
                append_bytes(&mut plain, ":".as_bytes());
                append_bytes(&mut plain, password.as_slice());
                let encoded = base64_encode(plain.as_slice());
                let mut value: Vec<u8> = Vec::new();
                append_bytes(&mut value, "Basic ".as_bytes());
                append_bytes(&mut value, encoded.as_slice());
                proof {
                    assert(value@ == spec_basic_auth(user@, password@));
                }
                Some(value)
            },
            _ => None,
        };
        let c = PromConfig { endpoint, auth };
        proof {
            assert(c@ =~= spec_prom_config(args@)->Ok_0);
        }
        Ok(c)
    }
}

/// One time-series label.
#[derive(Clone, Debug, PartialEq, Eq)]
pub struct Label {
    pub name: String,
    pub value: String,
}

/// Mathematical content of a [`Label`].
#[verifier::ext_equal]
pub ghost struct LabelView {
    pub name: Seq<char>,
    pub value: Seq<char>,
}

impl View for Label {
    type V = LabelView;

    open spec fn view(&self) -> LabelView {
        LabelView { name: self.name@, value: self.value@ }
    }
}

/// One sample: the counter value and the record's timestamp in
/// milliseconds.
#[derive(Clone, Copy, Debug, PartialEq, Eq, Structural)]
pub struct Sample {
    pub value: u32,
    pub timestamp: i64,
}

/// One time series: its labels and its samples.
#[derive(Clone, Debug, PartialEq, Eq)]
pub struct TimeSeries {
    pub labels: Vec<Label>,
    pub samples: Vec<Sample>,
}

/// Mathematical content of a [`TimeSeries`].
#[verifier::ext_equal]
pub ghost struct TimeSeriesView {
    pub labels: Seq<LabelView>,
    pub samples: Seq<Sample>,
}

impl View for TimeSeries {
    type V = TimeSeriesView;

    open spec fn view(&self) -> TimeSeriesView {
        TimeSeriesView {
            labels: Seq::new(self.labels@.len(), |i: int| self.labels@[i]@),
            samples: self.samples@,
        }
    }
}

/// A whole remote-write request body.
#[derive(Clone, Debug, PartialEq, Eq)]
pub struct WriteRequest {
    pub timeseries: Vec<TimeSeries>,
}

/// The label set of a record's series for the metric named `metric`, in
/// lexicographic name order; the three container labels appear only
/// when the process ran in a container.
pub open spec fn spec_labels(r: RecordView, metric: Seq<char>) -> Seq<LabelView> {
    seq![LabelView { name: "__name__"@, value: metric }] + (match r.process.container {
        Some(c) => seq![
            LabelView { name: "container_id"@, value: c.id },
            LabelView { name: "container_image"@, value: c.image },
            LabelView { name: "container_name"@, value: c.name },
        ],
        None => Seq::empty(),
    }) + seq![
        LabelView { name: "destination_ip"@, value: spec_quad(r.dst.addr) },
        LabelView { name: "destination_port"@, value: spec_dec(r.dst.port as nat) },
        LabelView { name: "event"@, value: r.event },
        LabelView { name: "process_cmd"@, value: spec_join(r.process.command) },
        LabelView { name: "process_pid"@, value: spec_dec_signed(r.process.pid) },
        LabelView { name: "source_host"@, value: r.hostname },
        LabelView { name: "source_ip"@, value: spec_quad(r.src.addr) },
        LabelView { name: "source_port"@, value: spec_dec(r.src.port as nat) },
    ]
}

/// The two series a record becomes, when its timestamp fits the sample
/// encoding: one under the received-bytes metric, one under the
/// transmitted-bytes metric, each carrying the matching counter as its
/// sample value.
pub open spec fn spec_prom_series(r: RecordView) -> Result<
    (TimeSeriesView, TimeSeriesView),
    ErrorView,
> {
    if r.timestamp > i64::MAX as u64 {
        Err(ErrorView::TimestampRange)
    } else {
        Ok(
            (
                TimeSeriesView {
                    labels: spec_labels(r, "bytes_rx"@),
                    samples: seq![Sample { value: r.rx, timestamp: r.timestamp as i64 }],
                },
                TimeSeriesView {
                    labels: spec_labels(r, "bytes_tx"@),
                    samples: seq![Sample { value: r.tx, timestamp: r.timestamp as i64 }],
                },
            ),
        )
    }
}

/// Build the label set of one record for one metric.
fn labels_for(r: &Record, metric: &str) -> (out: Vec<Label>)
    ensures
        Seq::new(out@.len(), |i: int| out@[i]@) == spec_labels(r@, metric@),
{
    let mut out: Vec<Label> = Vec::new();
    out.push(Label { name: "__name__".to_owned(), value: metric.to_owned() });
    match &r.process.container {
        Some(c) => {
            out.push(Label { name: "container_id".to_owned(), value: c.id.clone() });
            out.push(Label { name: "container_image".to_owned(), value: c.image.clone() });
            out.push(Label { name: "container_name".to_owned(), value: c.name.clone() });
        },
        None => {},
    }
    out.push(Label { name: "destination_ip".to_owned(), value: ipv4_string(r.dst.addr) });
    out.push(Label { name: "destination_port".to_owned(), value: u64_string(r.dst.port as u64) });
    out.push(Label { name: "event".to_owned(), value: r.event.clone() });
    out.push(Label { name: "process_cmd".to_owned(), value: join_spaces(&r.process.command) });
    out.push(Label { name: "process_pid".to_owned(), value: i32_string(r.process.pid) });
    out.push(Label { name: "source_host".to_owned(), value: r.hostname.clone() });
    out.push(Label { name: "source_ip".to_owned(), value: ipv4_string(r.src.addr) });
    out.push(Label { name: "source_port".to_owned(), value: u64_string(r.src.port as u64) });
    proof {
        assert(Seq::new(out@.len(), |i: int| out@[i]@) =~= spec_labels(r@, metric@));
    }
    out
}

/// Map one record to its two time series.
pub fn prom_series(r: &Record) -> (out: Result<(TimeSeries, TimeSeries), Error>)
    ensures
        match out {
            Ok((a, b)) => spec_prom_series(r@) == Ok::<(TimeSeriesView, TimeSeriesView), ErrorView>(
                (a@, b@),
            ),
            Err(e) => spec_prom_series(r@) == Err::<(TimeSeriesView, TimeSeriesView), ErrorView>(
                e@,
            ),
        },
{
    if r.timestamp > i64::MAX as u64 {
        return Err(Error::TimestampRange);
    }
    let mut samples_rx: Vec<Sample> = Vec::new();
    samples_rx.push(Sample { value: r.rx, timestamp: r.timestamp as i64 });
    let mut samples_tx: Vec<Sample> = Vec::new();
    samples_tx.push(Sample { value: r.tx, timestamp: r.timestamp as i64 });
    let a = TimeSeries { labels: labels_for(r, "bytes_rx"), samples: samples_rx };
    let b = TimeSeries { labels: labels_for(r, "bytes_tx"), samples: samples_tx };
    proof {
        assert(a@ =~= spec_prom_series(r@)->Ok_0.0);
        assert(b@ =~= spec_prom_series(r@)->Ok_0.1);
    }
    Ok((a, b))
}

} // verus!
