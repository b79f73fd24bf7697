//! The report accumulated over one rule-application run: an append-only,
//! ordered log of (message, category) warnings.

use vstd::prelude::*;

verus! {

/// The category of a warning: which stage had to skip some input.
#[derive(Clone, Copy, Debug, PartialEq, Eq, Structural)]
pub enum ReportType {
    /// A row of a rule file could not be parsed.
    ComplementaryCodeRulesRead,
    /// A rule record's target object was not found in its collection.
    ComplementaryObjectNotFound,
}

/// An append-only log of warnings, created empty at the start of a run and
/// handed back to the caller at its end.
#[derive(Debug)]
pub struct Report {
    warnings: Vec<(String, ReportType)>,
}

/// The mathematical content of a warning list: each message as its
/// character sequence, paired with its category.
pub open spec fn warnings_view(s: Seq<(String, ReportType)>) -> Seq<(Seq<char>, ReportType)> {
    s.map_values(|p: (String, ReportType)| (p.0@, p.1))
}

impl View for Report {
    type V = Seq<(Seq<char>, ReportType)>;

    closed spec fn view(&self) -> Seq<(Seq<char>, ReportType)> {
        warnings_view(self.warnings@)
    }
}

impl Report {
    /// A report with no warnings.
    pub fn new() -> (r: Report)
        ensures
            r@ == Seq::<(Seq<char>, ReportType)>::empty(),
    {
        let r = Report { warnings: Vec::new() };
        proof {
            assert(r@ =~= Seq::<(Seq<char>, ReportType)>::empty());
        }
        r
    }

    /// Appends one warning; earlier warnings are kept in order.
    pub fn add_warning(&mut self, msg: String, report_type: ReportType)
        ensures
            final(self)@ == old(self)@.push((msg@, report_type)),
    {
        let ghost pre = warnings_view(self.warnings@);
        let ghost m = msg@;
        self.warnings.push((msg, report_type));
        proof {
            assert(self@ =~= pre.push((m, report_type)));
        }
    }

    /// How many warnings have been recorded.
    pub fn len(&self) -> (n: usize)
        ensures
            n == self@.len(),
    {
        self.warnings.len()
    }

    /// Read access to the recorded warnings, in the order they were added.
    pub fn warnings(&self) -> (w: &Vec<(String, ReportType)>)
        ensures
            warnings_view(w@) == self@,
    {
        &self.warnings
    }
}

} // verus!
