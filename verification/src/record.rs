//! The central record type: one installed-product entry as assembled from a
//! probe, classified into a typed category, with an "unknown" sentinel for a
//! missing version.

use vstd::prelude::*;

verus! {

/// The typed category a candidate is classified into.
#[derive(Clone, Copy, PartialEq, Eq, Structural, Debug)]
pub enum Category {
    VCRuntimeX86,
    VCRuntimeX64,
    DotNetRuntime,
    DotNetSDK,
    DotNetDesktop,
    DotNetAspNetCore,
    Unclassified,
}

/// Mathematical image of a `RuntimeRecord`.
#[verifier::ext_equal]
pub struct RecordView {
    pub display_name: Seq<char>,
    pub version: Seq<char>,
    pub install_location: Option<Seq<char>>,
    pub publisher: Option<Seq<char>>,
    pub category: Category,
}

/// One installed-product entry. `display_name` is the deduplication identity;
/// `version` falls back to the "unknown" sentinel rather than staying empty.
pub struct RuntimeRecord {
    pub display_name: String,
    pub version: String,
    pub install_location: Option<String>,
    pub publisher: Option<String>,
    pub category: Category,
}

impl View for RuntimeRecord {
    type V = RecordView;

    open spec fn view(&self) -> RecordView {
        RecordView {
            display_name: self.display_name@,
            version: self.version@,
            install_location: match self.install_location {
                Option::Some(s) => Option::Some(s@),
                Option::None => Option::None,
            },
            publisher: match self.publisher {
                Option::Some(s) => Option::Some(s@),
                Option::None => Option::None,
            },
            category: self.category,
        }
    }
}

impl Clone for RuntimeRecord {
    /// Cloning preserves the record's mathematical image.
    fn clone(&self) -> (r: Self)
        ensures
            r@ == self@,
    {
        let r = RuntimeRecord {
            display_name: self.display_name.clone(),
            version: self.version.clone(),
            install_location: match &self.install_location {
                Option::Some(s) => Option::Some(s.clone()),
                Option::None => Option::None,
            },
            publisher: match &self.publisher {
                Option::Some(s) => Option::Some(s.clone()),
                Option::None => Option::None,
            },
            category: self.category,
        };
        proof {
            assert(r@ =~= self@);
        }
        r
    }
}

/// Mathematical image of a `RawCandidate`.
#[verifier::ext_equal]
pub struct RawView {
    pub display_name: Seq<char>,
    pub version: Option<Seq<char>>,
    pub install_location: Option<Seq<char>>,
    pub publisher: Option<Seq<char>>,
}

/// The raw field values one probe hands over for a single candidate, before
/// classification and before the missing-version fallback is applied.
pub struct RawCandidate {
    pub display_name: String,
    pub version: Option<String>,
    pub install_location: Option<String>,
    pub publisher: Option<String>,
}

impl View for RawCandidate {
    type V = RawView;

    open spec fn view(&self) -> RawView {
        RawView {
            display_name: self.display_name@,
            version: match self.version {
                Option::Some(s) => Option::Some(s@),
                Option::None => Option::None,
            },
            install_location: match self.install_location {
                Option::Some(s) => Option::Some(s@),
                Option::None => Option::None,
            },
            publisher: match self.publisher {
                Option::Some(s) => Option::Some(s@),
                Option::None => Option::None,
            },
        }
    }
}

impl Clone for RawCandidate {
    /// Cloning preserves the candidate's mathematical image.
    fn clone(&self) -> (r: Self)
        ensures
            r@ == self@,
    {
        let r = RawCandidate {
            display_name: self.display_name.clone(),
            version: match &self.version {
                Option::Some(s) => Option::Some(s.clone()),
                Option::None => Option::None,
            },
            install_location: match &self.install_location {
                Option::Some(s) => Option::Some(s.clone()),
                Option::None => Option::None,
            },
            publisher: match &self.publisher {
                Option::Some(s) => Option::Some(s.clone()),
                Option::None => Option::None,
            },
        };
        proof {
            assert(r@ =~= self@);
        }
        r
    }
}

/// The sentinel stored when a source reports no version at all.
pub open spec fn unknown_version() -> Seq<char> {
    "unknown"@
}

/// Builds a record from raw probe fields: the version falls back to the
/// "unknown" sentinel exactly when the source provided none.
pub fn record_from_candidate(c: RawCandidate, category: Category) -> (r: RuntimeRecord)
    ensures
        r@.display_name == c.display_name@,
        r@.version == match c.version {
            Option::Some(v) => v@,
            Option::None => unknown_version(),
        },
        r@.install_location == match c.install_location {
            Option::Some(s) => Option::Some(s@),
            Option::None => Option::None::<Seq<char>>,
        },
        r@.publisher == match c.publisher {
            Option::Some(s) => Option::Some(s@),
            Option::None => Option::None::<Seq<char>>,
        },
        r@.category == category,
{
    let version: String = match c.version {
        Option::Some(v) => v,
        Option::None => {
            let s: &str = "unknown";
            s.to_owned()
        },
    };
    RuntimeRecord {
        display_name: c.display_name,
        version,
        install_location: c.install_location,
        publisher: c.publisher,
        category,
    }
}

} // verus!
