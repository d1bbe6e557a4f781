//! The counters on which the exporter counts its own failures.

use vstd::prelude::*;
use crate::fetcher::{FetchError, FetchErrorKind};
use crate::metrics::prometheus::{
    counter_series, one_more, register_counters, registry_filing, Counter, MetricError, Series,
    Title,
};

verus! {

/// One counter for each kind of fetch error.
pub struct ErrorCounters {
    pub parsing: Counter,
    pub fdb: Counter,
    pub fdb_binding: Counter,
    pub status_not_found: Counter,
}

/// What the error counters read.
#[derive(Clone, Copy, Debug, PartialEq, Eq, Structural)]
pub struct ErrorCounts {
    pub parsing: u64,
    pub fdb: u64,
    pub fdb_binding: u64,
    pub status_not_found: u64,
}

impl View for ErrorCounters {
    type V = ErrorCounts;

    open spec fn view(&self) -> ErrorCounts {
        ErrorCounts {
            parsing: self.parsing@,
            fdb: self.fdb@,
            fdb_binding: self.fdb_binding@,
            status_not_found: self.status_not_found@,
        }
    }
}

impl ErrorCounts {
    /// The counts before any error.
    pub open spec fn initial() -> ErrorCounts {
        ErrorCounts { parsing: 0, fdb: 0, fdb_binding: 0, status_not_found: 0 }
    }

    /// The counts after one more error of a kind: the counter of that kind
    /// has one more, the others are as before.
    pub open spec fn counted(self, kind: FetchErrorKind) -> ErrorCounts {
        match kind {
            FetchErrorKind::Parsing => ErrorCounts { parsing: one_more(self.parsing), ..self },
            FetchErrorKind::Fdb => ErrorCounts { fdb: one_more(self.fdb), ..self },
            FetchErrorKind::FdbBinding => ErrorCounts {
                fdb_binding: one_more(self.fdb_binding),
                ..self
            },
            FetchErrorKind::StatusNotFound => ErrorCounts {
                status_not_found: one_more(self.status_not_found),
                ..self
            },
        }
    }
}

impl ErrorCounters {
    /// The names and the help texts of the counters, in the order of the
    /// fields.
    pub open spec fn titles(&self) -> Seq<Title> {
        seq![
            self.parsing.title(),
            self.fdb.title(),
            self.fdb_binding.title(),
            self.status_not_found.title(),
        ]
    }

    /// The names and the help texts under which the errors are counted.
    pub open spec fn declared_titles() -> Seq<Title> {
        seq![
            Title {
                name: "fdb_exporter_parsing_error_count"@,
                help: "Number of parsing errors encountered"@,
            },
            Title { name: "fdb_exporter_fdb_error_count"@, help: "Number of FoundationDB errors"@ },
            Title {
                name: "fdb_exporter_fdb_binding_error_count"@,
                help: "Number of FoundationDB binding errors"@,
            },
            Title {
                name: "fdb_exporter_status_not_found_count"@,
                help: "Number of times the status key was not found"@,
            },
        ]
    }

    /// Declares the four counters, under their names. Each reads 0.
    pub fn new() -> (counters: ErrorCounters)
        ensures
            counters@ == ErrorCounts::initial(),
            counters.titles() == Self::declared_titles(),
    {
        proof {
            reveal_strlit("fdb_exporter_parsing_error_count");
            reveal_strlit("Number of parsing errors encountered");
            reveal_strlit("fdb_exporter_fdb_error_count");
            reveal_strlit("Number of FoundationDB errors");
            reveal_strlit("fdb_exporter_fdb_binding_error_count");
            reveal_strlit("Number of FoundationDB binding errors");
            reveal_strlit("fdb_exporter_status_not_found_count");
            reveal_strlit("Number of times the status key was not found");
        }
        ErrorCounters {
            parsing: Counter::declared(
                "fdb_exporter_parsing_error_count",
                "Number of parsing errors encountered",
            ),
            fdb: Counter::declared("fdb_exporter_fdb_error_count", "Number of FoundationDB errors"),
            fdb_binding: Counter::declared(
                "fdb_exporter_fdb_binding_error_count",
                "Number of FoundationDB binding errors",
            ),
            status_not_found: Counter::declared(
                "fdb_exporter_status_not_found_count",
                "Number of times the status key was not found",
            ),
        }
    }

    /// The counters as a registry sees them, in the order of the fields.
    pub open spec fn series(&self) -> Seq<Series> {
        seq![
            self.parsing.series(),
            self.fdb.series(),
            self.fdb_binding.series(),
            self.status_not_found.series(),
        ]
    }

    /// Files the counters in a registry, in the order of the fields, and
    /// stops at the first that the registry refuses. It succeeds exactly
    /// when the registry takes every counter in its turn.
    pub fn register(&self, registry: &mut ::prometheus::Registry) -> (r: Result<(), MetricError>)
        ensures
            r is Ok <==> registry_filing(*old(registry)).takes_all(self.series(), false),
            registry_filing(*final(registry)) == registry_filing(*old(registry)).offered_in_order(
                self.series(),
                false,
            ),
    {
        let counters: [&Counter; 4] = [
            &self.parsing,
            &self.fdb,
            &self.fdb_binding,
            &self.status_not_found,
        ];
        assert(counter_series(counters@) =~= self.series());
        register_counters(counters.as_slice(), registry)
    }

    /// What the counters read.
    pub fn counts(&self) -> (r: ErrorCounts)
        ensures
            r == self@,
    {
        ErrorCounts {
            parsing: self.parsing.get(),
            fdb: self.fdb.get(),
            fdb_binding: self.fdb_binding.get(),
            status_not_found: self.status_not_found.get(),
        }
    }
}

impl FetchError {
    /// Counts the error on the counter of its kind.
    pub fn to_metrics(&self, counters: &mut ErrorCounters)
        ensures
            final(counters)@ == old(counters)@.counted(self.kind()),
            final(counters).titles() == old(counters).titles(),
    {
        match self {
            FetchError::Fdb(_, _) => counters.fdb.inc(),
            FetchError::FdbBinding(_) => counters.fdb_binding.inc(),
            FetchError::StatusNotFound => counters.status_not_found.inc(),
            FetchError::Parsing(_) => counters.parsing.inc(),
        };
    }
}

} // verus!
