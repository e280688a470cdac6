//! The ledger catalog's naming rules: which strings may name a local ledger,
//! and the classification of a raw directory listing into valid ledger names
//! and rejected entries. Reading the directory itself is storage-layer work
//! done outside this library; it hands the raw entries in as strings.

use vstd::prelude::*;
use vstd::string::StrSliceExecFns;
use crate::error::Error;

verus! {

/// A string may name a ledger when it is non-empty, holds no path separator,
/// and is not one of the two relative path components.
pub open spec fn name_ok(s: Seq<char>) -> bool {
    &&& s.len() > 0
    &&& forall|i: int| 0 <= i < s.len() ==> s[i] != '/' && s[i] != '\\'
    &&& !(s.len() == 1 && s[0] == '.')
    &&& !(s.len() == 2 && s[0] == '.' && s[1] == '.')
}

/// Whether `s` may name a local ledger.
pub fn valid_name(s: &str) -> (b: bool)
    ensures
        b == name_ok(s@),
{
    let n = s.unicode_len();
    if n == 0 {
        return false;
    }
    if n == 1 && s.get_char(0) == '.' {
        return false;
    }
    if n == 2 && s.get_char(0) == '.' && s.get_char(1) == '.' {
        return false;
    }
    let mut i: usize = 0;
    while i < n
        invariant
            n == s@.len(),
            i <= n,
            forall|j: int| 0 <= j < i ==> s@[j] != '/' && s@[j] != '\\',
        decreases n - i,
    {
        let c = s.get_char(i);
        if c == '/' || c == '\\' {
            return false;
        }
        i = i + 1;
    }
    true
}

/// A validated ledger name: fixed once created.
pub struct LedgerName {
    name: String,
}

impl View for LedgerName {
    type V = Seq<char>;

    closed spec fn view(&self) -> Seq<char> {
        self.name@
    }
}

impl LedgerName {
    /// Every held name obeys the catalog's naming rules.
    pub open spec fn wf(&self) -> bool {
        name_ok(self@)
    }

    /// Validates a raw catalog entry; a rejected entry is reported with the
    /// offending string.
    pub fn new(name: String) -> (r: Result<LedgerName, Error>)
        ensures
            name_ok(name@) ==> (r matches Ok(n) && n@ == name@ && n.wf()),
            !name_ok(name@) ==> (r matches Err(Error::ListBlockchainInvalidName(raw)) && raw@
                == name@),
    {
        if valid_name(name.as_str()) {
            Ok(LedgerName { name })
        } else {
            Err(Error::ListBlockchainInvalidName(name))
        }
    }

    /// The name as a string slice.
    pub fn as_str(&self) -> (r: &str)
        ensures
            r@ == self@,
    {
        self.name.as_str()
    }
}

/// How one raw catalog entry must be classified.
pub open spec fn classified(raw: Seq<char>, out: Result<LedgerName, Error>) -> bool {
    if name_ok(raw) {
        out matches Ok(n) && n@ == raw
    } else {
        out matches Err(Error::ListBlockchainInvalidName(s)) && s@ == raw
    }
}

/// Classifies the raw entries of the ledger catalog, in order: each valid
/// name is yielded as a ledger name, each malformed entry as its own error,
/// and an empty catalog is the distinct no-ledgers condition.
pub fn list_ledgers(entries: Vec<String>) -> (r: Result<Vec<Result<LedgerName, Error>>, Error>)
    ensures
        entries@.len() == 0 ==> r matches Err(Error::ListNoBlockchains),
        entries@.len() > 0 ==> (r matches Ok(v) && v@.len() == entries@.len() && forall|i: int|
            0 <= i < entries@.len() ==> classified(entries@[i]@, #[trigger] v@[i])),
{
    if entries.len() == 0 {
        return Err(Error::ListNoBlockchains);
    }
    let n = entries.len();
    let mut out: Vec<Result<LedgerName, Error>> = Vec::new();
    let mut i: usize = 0;
    while i < n
        invariant
            n == entries@.len(),
            i <= n,
            out@.len() == i,
            forall|j: int| 0 <= j < i ==> classified(entries@[j]@, #[trigger] out@[j]),
        decreases n - i,
    {
        let entry = entries[i].clone();
        out.push(LedgerName::new(entry));
        i = i + 1;
    }
    Ok(out)
}

} // verus!
