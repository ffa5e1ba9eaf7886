//! Sink selection and the record buffer the HTTP-backed sinks share.
//!
//! A sink is chosen by a specification string of the form
//! `name[,key=value[,key=value]...]`.  The library parses the string and
//! computes each backend's configuration — endpoint, credentials and
//! headers are derived here — while the delivery itself (stdout, HTTP)
//! happens outside the library.

pub mod args;
pub mod nr;
pub mod prom;

use vstd::prelude::*;
use vstd::string::StringSliceAdditionalSpecFns;
use crate::data::{Record, RecordView};
use crate::sink::args::{spec_sink_args, spec_sink_name, Args};
use crate::sink::nr::{spec_nr_config, NrConfig};
use crate::sink::prom::{spec_prom_config, PromConfig};

verus! {

/// Why a sink could not be configured or fed.
#[derive(Clone, Debug, PartialEq, Eq)]
pub enum Error {
    /// The specification string named no known sink.
    UnknownSink(Vec<u8>),
    /// A required `key=value` argument was absent.
    MissingArg(Vec<u8>),
    /// The region argument named no known region.
    InvalidRegion(Vec<u8>),
    /// A record's timestamp does not fit the sample encoding.
    TimestampRange,
}

/// Mathematical content of an [`Error`].
pub ghost enum ErrorView {
    UnknownSink(Seq<u8>),
    MissingArg(Seq<u8>),
    InvalidRegion(Seq<u8>),
    TimestampRange,
}

impl View for Error {
    type V = ErrorView;

    open spec fn view(&self) -> ErrorView {
        match self {
            Error::UnknownSink(n) => ErrorView::UnknownSink(n@),
            Error::MissingArg(n) => ErrorView::MissingArg(n@),
            Error::InvalidRegion(n) => ErrorView::InvalidRegion(n@),
            Error::TimestampRange => ErrorView::TimestampRange,
        }
    }
}

/// Where records go: the configuration of the chosen backend.
#[derive(Clone, Debug, PartialEq, Eq)]
pub enum Sink {
    NewRelic(NrConfig),
    Prometheus(PromConfig),
    Stdout,
}

impl Default for Sink {
    /// Without a specification, records go to stdout.
    fn default() -> (s: Self)
        ensures
            s is Stdout,
    {
        Sink::Stdout
    }
}

/// What parsing a sink specification yields, by sink name: the
/// configured backend, or the error its configuration raises, or an
/// unknown-sink error.
pub open spec fn spec_sink_ok(spec: Seq<u8>, s: Sink) -> bool {
    let name = spec_sink_name(spec);
    let pairs = spec_sink_args(spec);
    match s {
        Sink::Stdout => name == "stdout".spec_bytes(),
        Sink::NewRelic(c) => name == "newrelic".spec_bytes() && spec_nr_config(pairs) == Ok::<
            nr::NrConfigView,
            ErrorView,
        >(c@),
        Sink::Prometheus(c) => name == "prometheus".spec_bytes() && spec_prom_config(pairs) == Ok::<
            prom::PromConfigView,
            ErrorView,
        >(c@),
    }
}

/// The error parsing a sink specification raises, when it raises one.
pub open spec fn spec_sink_err(spec: Seq<u8>, e: ErrorView) -> bool {
    let name = spec_sink_name(spec);
    let pairs = spec_sink_args(spec);
    if name == "newrelic".spec_bytes() {
        spec_nr_config(pairs) == Err::<nr::NrConfigView, ErrorView>(e)
    } else if name == "prometheus".spec_bytes() {
        spec_prom_config(pairs) == Err::<prom::PromConfigView, ErrorView>(e)
    } else if name == "stdout".spec_bytes() {
        false
    } else {
        e == ErrorView::UnknownSink(spec)
    }
}

impl Sink {
    /// Parse a sink specification string.  `stdout`, `newrelic` and
    /// `prometheus` are the known sinks; anything else is rejected with
    /// the whole specification as the unknown name.
    pub fn from_spec(spec: &[u8]) -> (r: Result<Sink, Error>)
        ensures
            match r {
                Ok(s) => spec_sink_ok(spec@, s),
                Err(e) => spec_sink_err(spec@, e@),
            },
    {
        let (name, arguments) = Args::parse(spec);
        if crate::text::bytes_eq(name.as_slice(), "newrelic".as_bytes()) {
            match NrConfig::from_args(&arguments) {
                Ok(c) => Ok(Sink::NewRelic(c)),
                Err(e) => Err(e),
            }
        } else if crate::text::bytes_eq(name.as_slice(), "prometheus".as_bytes()) {
            match PromConfig::from_args(&arguments) {
                Ok(c) => Ok(Sink::Prometheus(c)),
                Err(e) => Err(e),
            }
        } else if crate::text::bytes_eq(name.as_slice(), "stdout".as_bytes()) {
            Ok(Sink::Stdout)
        } else {
            let whole = crate::text::bytes_of(spec, 0, spec.len());
            proof {
                assert(whole@ =~= spec@);
            }
            Err(Error::UnknownSink(whole))
        }
    }
}

/// The buffer an HTTP-backed sink accumulates records in between
/// flushes.  The runtime wraps it in a mutex; each push and each drain
/// is one critical section.
pub struct Batch {
    records: Vec<Record>,
}

impl Batch {
    /// The buffered records, oldest first.
    pub closed spec fn view(&self) -> Seq<RecordView> {
        Seq::new(self.records@.len(), |i: int| self.records@[i]@)
    }

    /// An empty buffer.
    pub fn new() -> (b: Batch)
        ensures
            b@ == Seq::<RecordView>::empty(),
    {
        let b = Batch { records: Vec::new() };
        proof {
            assert(b@ =~= Seq::<RecordView>::empty());
        }
        b
    }

    /// How many records are buffered.
    pub fn len(&self) -> (n: usize)
        ensures
            n == self@.len(),
    {
        self.records.len()
    }

    /// Append one record.
    pub fn push(&mut self, r: Record)
        ensures
            final(self)@ == old(self)@.push(r@),
    {
        self.records.push(r);
        proof {
            assert(self@ =~= old(self)@.push(r@));
        }
    }

    /// Take every buffered record, oldest first, leaving the buffer
    /// empty.
    pub fn drain(&mut self) -> (out: Vec<Record>)
        ensures
            out@.len() == old(self)@.len(),
            forall|i: int| 0 <= i < out@.len() ==> (#[trigger] out@[i])@ == old(self)@[i],
            final(self)@ == Seq::<RecordView>::empty(),
    {
        let mut out: Vec<Record> = Vec::new();
        core::mem::swap(&mut self.records, &mut out);
        proof {
            assert(self@ =~= Seq::<RecordView>::empty());
        }
        out
    }
}

} // verus!
