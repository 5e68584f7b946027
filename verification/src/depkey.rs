use vstd::prelude::*;

verus! {

/// The kinds of entries that a dependency has in a configuration file.
pub enum DepKey {
    Project,
    TagPrefix,
    Version,
    VersionReq,
}

/// The name of a key kind, as it stands at the end of a configuration key.
pub open spec fn key_name(key: DepKey) -> Seq<char> {
    match key {
        DepKey::Project => "PROJECT"@,
        DepKey::TagPrefix => "TAG_PREFIX"@,
        DepKey::Version => "VERSION"@,
        DepKey::VersionReq => "VERSION_REQ"@,
    }
}

/// The postfix that follows the dependency's name in a configuration key:
/// `GH_` and the key kind's name.
pub open spec fn full_postfix(key: DepKey) -> Seq<char> {
    "GH"@ + seq!['_'] + key_name(key)
}

impl DepKey {
    pub fn as_str(&self) -> (s: &'static str)
        ensures
            s@ == key_name(*self),
    {
        match self {
            DepKey::Project => "PROJECT",
            DepKey::TagPrefix => "TAG_PREFIX",
            DepKey::Version => "VERSION",
            DepKey::VersionReq => "VERSION_REQ",
        }
    }

    pub fn as_full_postfix(&self) -> (s: String)
        ensures
            s@ == full_postfix(*self),
    {
        let mut s = String::from_str("GH_");
        s.append(self.as_str());
        proof {
            reveal_strlit("GH_");
            reveal_strlit("GH");
            assert("GH_"@ =~= "GH"@ + seq!['_']);
        }
        s
    }
}

} // verus!
