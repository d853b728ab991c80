use vstd::prelude::*;
use vstd::string::*;

verus! {

/// The two file formats that datasets are stored in.
#[derive(Debug, Clone, Copy, PartialEq, Eq, PartialOrd, Ord, Structural)]
pub enum Serialization {
    Binary,
    Json,
}

pub open spec fn spec_extension(s: Serialization) -> Seq<char> {
    match s {
        Serialization::Binary => "bin"@,
        Serialization::Json => "json"@,
    }
}

fn str_equals(a: &str, b: &str) -> (equal: bool)
    ensures
        equal == (a@ == b@),
{
    let n = a.unicode_len();
    if n != b.unicode_len() {
        return false;
    }
    let mut i: usize = 0;
    while i < n
        invariant
            n == a@.len(),
            n == b@.len(),
            i <= n,
            forall|j: int| 0 <= j < i ==> a@[j] == b@[j],
        decreases n - i,
    {
        if a.get_char(i) != b.get_char(i) {
            return false;
        }
        i = i + 1;
    }
    assert(a@ =~= b@);
    true
}

impl Serialization {
    /// The file extension of the format.
    pub fn to_extension(&self) -> (extension: &str)
        ensures
            extension@ == spec_extension(*self),
    {
        match self {
            Serialization::Binary => "bin",
            Serialization::Json => "json",
        }
    }

    /// The format of a file extension; only "bin" and "json" name one.
    pub fn from_extension(extension: &str) -> (s: Self)
        requires
            extension@ == "bin"@ || extension@ == "json"@,
        ensures
            spec_extension(s) == extension@,
    {
        proof {
            reveal_strlit("bin");
            reveal_strlit("json");
        }
        if str_equals(extension, "bin") {
            Serialization::Binary
        } else {
            Serialization::Json
        }
    }

    /// `path` followed by a dot and the format's extension.
    pub fn append_extension(&self, path: &str) -> (file: String)
        ensures
            file@ == path@ + "."@ + spec_extension(*self),
    {
        let mut file = String::from_str(path);
        file.append(".");
        file.append(self.to_extension());
        file
    }
}

/// Naming a format by its extension gives the format back.
pub proof fn lemma_extension_round_trip(s: Serialization)
    ensures
        spec_extension(s) == "bin"@ || spec_extension(s) == "json"@,
        forall|t: Serialization| spec_extension(t) == spec_extension(s) ==> t == s,
{
    reveal_strlit("bin");
    reveal_strlit("json");
    assert("bin"@.len() != "json"@.len());
}

} // verus!
