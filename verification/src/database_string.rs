use vstd::prelude::*;
use vstd::string::{StringExecFns, StringSliceAdditionalSpecFns};
use vstd::utf8::encode_utf8;

verus! {

/// A type whose values are stored in the database as strings.
///
/// The stored form is a contract with what is already on disk: it is kept
/// apart from how a value prints and from how it is sent over the wire, so
/// that a change of those cannot change it.
pub trait DatabaseString: Sized {
    /// Why a string was not read as a value.
    type Error: std::fmt::Display;

    /// The string that stands for the value in the database.
    fn to_database_string(&self) -> &str;

    /// Reads a value from the string that stands for it in the database.
    fn from_database_string(s: &str) -> Result<Self, Self::Error>;
}

/// The line of a report that tells of one variant and its stored form.
pub open spec fn report_line(variant: Seq<char>, serialized: Seq<char>) -> Seq<char> {
    "variant "@ + variant + ": serialized form = "@ + serialized + "\n"@
}

/// The report on variants and their stored forms: one line for each, in
/// order.
pub open spec fn report_text(variants: Seq<Seq<char>>, serialized: Seq<Seq<char>>) -> Seq<char>
    decreases variants.len(),
{
    if variants.len() == 0 || serialized.len() == 0 {
        Seq::empty()
    } else {
        report_text(variants.drop_last(), serialized.drop_last()) + report_line(
            variants.last(),
            serialized.last(),
        )
    }
}

/// The length in bytes of the longest of the stored forms, if there is any.
pub open spec fn longest(serialized: Seq<Seq<char>>) -> Option<nat>
    decreases serialized.len(),
{
    if serialized.len() == 0 {
        None
    } else {
        let len = encode_utf8(serialized.last()).len();
        match longest(serialized.drop_last()) {
            Some(before) => if len > before {
                Some(len)
            } else {
                Some(before)
            },
            None => Some(len),
        }
    }
}

/// A string of `n` dashes.
pub open spec fn dashes(n: nat) -> Seq<char> {
    Seq::new(n, |i: int| '-')
}

/// The views of the strings of `v`, in order.
pub open spec fn views(v: Seq<String>) -> Seq<Seq<char>> {
    v.map_values(|s: String| s@)
}

/// What a check of an implementation of `DatabaseString` has seen so far:
/// the names of the variants, their stored forms, and the report on them.
pub struct SmokeReport {
    /// The name of each variant that was checked, as it prints for
    /// debugging.
    pub variants: Vec<String>,
    /// The stored form of each variant that was checked.
    pub serialized: Vec<String>,
    /// The report: one line for each variant, with its stored form.
    pub output: String,
    /// The length in bytes of the longest stored form.
    pub maxlen: Option<usize>,
}

impl SmokeReport {
    /// True if the report and the longest length are those of the variants
    /// and stored forms that were recorded.
    pub open spec fn wf(&self) -> bool {
        &&& self.variants@.len() == self.serialized@.len()
        &&& self.output@ == report_text(views(self.variants@), views(self.serialized@))
        &&& match self.maxlen {
            Some(len) => longest(views(self.serialized@)) == Some(len as nat),
            None => longest(views(self.serialized@)) is None,
        }
    }

    /// A report on nothing.
    pub fn new() -> (report: Self)
        ensures
            report.wf(),
            report.variants@.len() == 0,
            report.output@.len() == 0,
            report.maxlen is None,
    {
        let report = SmokeReport {
            variants: Vec::new(),
            serialized: Vec::new(),
            output: String::new(),
            maxlen: None,
        };
        report
    }

    /// Records a variant by its name and its stored form: adds its line to
    /// the report and keeps the length of the longest stored form.
    pub fn record(&mut self, variant: &str, serialized: &str)
        requires
            old(self).wf(),
        ensures
            final(self).wf(),
            views(final(self).variants@) == views(old(self).variants@).push(variant@),
            views(final(self).serialized@) == views(old(self).serialized@).push(serialized@),
            final(self).output@ == old(self).output@ + report_line(variant@, serialized@),
    {
        let ghost names = views(self.variants@);
        let ghost forms = views(self.serialized@);
        let ghost before = self.output@;
        self.variants.push(variant.to_owned());
        self.serialized.push(serialized.to_owned());
        self.output.append("variant ");
        self.output.append(variant);
        self.output.append(": serialized form = ");
        self.output.append(serialized);
        self.output.append("\n");
        let newlen = serialized.as_bytes().len();
        self.maxlen = match self.maxlen {
            None => Some(newlen),
            Some(oldlen) => if newlen > oldlen {
                Some(newlen)
            } else {
                Some(oldlen)
            },
        };
        proof {
            assert(views(self.variants@).drop_last() =~= names);
            assert(views(self.serialized@).drop_last() =~= forms);
            assert(self.output@ =~= before + report_line(variant@, serialized@));
        }
    }

    /// A string that is the stored form of none of the variants that were
    /// recorded: it is longer than each of them. There is none while no
    /// variant was recorded.
    pub fn unknown_input(&self) -> (input: Option<String>)
        requires
            self.wf(),
        ensures
            match longest(views(self.serialized@)) {
                Some(len) => input matches Some(text) && text@ == dashes(len + 1),
                None => input is None,
            },
    {
        match self.maxlen {
            None => None,
            Some(maxlen) => {
                let mut text = String::from_str("-");
                proof {
                    reveal_strlit("-");
                }
                let mut i: usize = 0;
                while i < maxlen
                    invariant
                        0 <= i <= maxlen,
                        text@ == dashes((i + 1) as nat),
                    decreases maxlen - i,
                {
                    text.push('-');
                    i += 1;
                }
                Some(text)
            },
        }
    }
}

/// What a check of an implementation of `DatabaseString` found wrong.
#[derive(Debug, Clone, PartialEq, Eq)]
pub enum DatabaseStringFault {
    /// The stored form of the variant at this place was not read at all.
    NotRead { variant: usize },
    /// The stored form of the variant at this place was read as another
    /// value.
    ReadAsAnother { variant: usize },
    /// A string that is the stored form of no variant was read as a value.
    UnknownRead { input: String },
}

/// Checks an implementation of `DatabaseString` on the given variants, whose
/// names for the report stand beside them: the stored form of each has to
/// be read back as the same value, and a string that is longer than every
/// stored form has to be refused.
///
/// What the implementation hands out decides how the check ends. Where it
/// ends well, the report that is handed out is the one on the variants'
/// names and on the stored forms that the implementation gave, in order;
/// the caller holds it against the report that is expected. With no
/// variants the check always ends well, with an empty report.
pub fn test_database_string_impl<T: DatabaseString + PartialEq>(
    variants: &Vec<T>,
    names: &Vec<String>,
) -> (r: Result<SmokeReport, DatabaseStringFault>)
    requires
        variants@.len() == names@.len(),
    ensures
        variants@.len() == 0 ==> r is Ok,
        r matches Ok(report) ==> report.wf() && views(report.variants@) == views(names@),
        r matches Err(DatabaseStringFault::NotRead { variant }) ==> variant < variants@.len(),
        r matches Err(DatabaseStringFault::ReadAsAnother { variant }) ==> variant
            < variants@.len(),
{
    let mut report = SmokeReport::new();
    let mut i: usize = 0;
    while i < variants.len()
        invariant
            0 <= i <= variants@.len(),
            variants@.len() == names@.len(),
            report.wf(),
            views(report.variants@) == views(names@.take(i as int)),
        decreases variants@.len() - i,
    {
        let serialized = variants[i].to_database_string();
        match T::from_database_string(serialized) {
            Err(_) => {
                return Err(DatabaseStringFault::NotRead { variant: i });
            },
            Ok(deserialized) => {
                if variants[i] != deserialized {
                    return Err(DatabaseStringFault::ReadAsAnother { variant: i });
                }
            },
        }
        report.record(names[i].as_str(), serialized);
        i += 1;
    }
    match report.unknown_input() {
        Some(input) => {
            if T::from_database_string(input.as_str()).is_ok() {
                return Err(DatabaseStringFault::UnknownRead { input });
            }
        },
        None => {},
    }
    Ok(report)
}

} // verus!
