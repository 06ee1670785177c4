use crate::mc_types::string::McStringError;
use vstd::prelude::*;
use vstd::string::{StrSliceExecFns, StringExecFns};

verus! {

/// A namespaced name, written `namespace:name`.
///
/// A name read without a colon has no namespace; written out, it gets the
/// namespace `minecraft`.
#[derive(Debug, Clone, PartialEq, Eq)]
pub struct McIdentifier {
    /// The part before the colon, if the text had one.
    pub namespace: Option<String>,
    /// The part after the colon, or the whole text.
    pub name: String,
}

/// The index of the first colon of `s` at or after `from`, or the length of
/// `s` when there is none.
pub open spec fn colon_index(s: Seq<char>, from: int) -> int
    decreases s.len() - from,
{
    if from >= s.len() || s[from] == ':' {
        from
    } else {
        colon_index(s, from + 1)
    }
}

/// The namespace that a name without one is written with.
pub open spec fn default_namespace() -> Seq<char> {
    "minecraft"@
}

impl McIdentifier {
    /// The namespace as a sequence of characters, if there is one.
    pub open spec fn namespace_view(&self) -> Option<Seq<char>> {
        match self.namespace {
            Some(ns) => Some(ns@),
            None => None,
        }
    }

    /// The parts of the text `s`: the namespace, if a colon ends it, and the
    /// name. The name runs from the first colon to the second one, or to the
    /// end of `s`; what follows a second colon belongs to neither part.
    pub open spec fn spec_from_string(s: Seq<char>) -> (Option<Seq<char>>, Seq<char>) {
        let first = colon_index(s, 0);
        if first >= s.len() {
            (None, s)
        } else {
            let second = colon_index(s, first + 1);
            (Some(s.subrange(0, first)), s.subrange(first + 1, second))
        }
    }

    /// The text of an identifier with the given parts.
    pub open spec fn spec_to_string(namespace: Option<Seq<char>>, name: Seq<char>) -> Seq<char> {
        (match namespace {
            Some(ns) => ns,
            None => default_namespace(),
        }) + seq![':'] + name
    }

    /// Splits `string` into namespace and name. Every string has a reading.
    pub fn from_string(string: &str) -> (r: Result<McIdentifier, McStringError>)
        ensures
            r is Ok,
            (r->Ok_0.namespace_view(), r->Ok_0.name@) == McIdentifier::spec_from_string(string@),
    {
        let length = string.unicode_len();
        let mut first: usize = length;
        let mut second: usize = length;
        let mut index: usize = 0;
        for c in it: string.chars()
            invariant
                length == string@.len(),
                it.seq() == string@,
                index == it.index(),
                index <= length,
                first <= second <= length,
                first < length ==> first < index && string@[first as int] == ':',
                second < length ==> first < second < index && string@[second as int] == ':',
                forall|j: int| 0 <= j < index && j < first ==> string@[j] != ':',
                forall|j: int| first < j < index && j < second ==> string@[j] != ':',
        {
            if c == ':' {
                if first == length {
                    first = index;
                } else if second == length {
                    second = index;
                }
            }
            index = index + 1;
        }
        proof {
            lemma_colon_index(string@, 0, first as int);
            if first < length {
                lemma_colon_index(string@, first + 1, second as int);
            }
        }
        if first < length {
            let namespace = string.substring_char(0, first).to_owned();
            let name = string.substring_char(first + 1, second).to_owned();
            Ok(McIdentifier { namespace: Some(namespace), name })
        } else {
            Ok(McIdentifier { namespace: None, name: string.to_owned() })
        }
    }

    /// The text of the identifier, with `minecraft` for a missing namespace.
    pub fn to_string(&self) -> (text: String)
        ensures
            text@ == McIdentifier::spec_to_string(self.namespace_view(), self.name@),
    {
        let mut s = String::new();
        match &self.namespace {
            Some(namespace) => s.append(namespace.as_str()),
            None => s.append("minecraft"),
        }
        s.append(":");
        s.append(self.name.as_str());
        proof {
            reveal_strlit(":");
            assert(":"@ =~= seq![':']);
        }
        s
    }
}

/// The first colon at or after `from` is at `at` when no character between
/// the two is a colon and `at` is a colon or the end of `s`.
proof fn lemma_colon_index(s: Seq<char>, from: int, at: int)
    requires
        0 <= from <= at <= s.len(),
        forall|j: int| from <= j < at ==> s[j] != ':',
        at == s.len() || s[at] == ':',
    ensures
        colon_index(s, from) == at,
    decreases at - from,
{
    if from < at {
        lemma_colon_index(s, from + 1, at);
    }
}

/// Reading the text of an identifier gives its name back, and its namespace
/// where it has one. An identifier without a namespace comes back with the
/// namespace `minecraft`. This holds where neither part holds a colon.
pub proof fn lemma_identifier_round_trip(namespace: Option<Seq<char>>, name: Seq<char>)
    requires
        namespace matches Some(ns) ==> !ns.contains(':'),
        !name.contains(':'),
    ensures
        McIdentifier::spec_from_string(McIdentifier::spec_to_string(namespace, name)) == (
            Some(
                match namespace {
                    Some(ns) => ns,
                    None => default_namespace(),
                },
            ),
            name,
        ),
{
    reveal_strlit("minecraft");
    let ns = match namespace {
        Some(ns) => ns,
        None => default_namespace(),
    };
    let text = McIdentifier::spec_to_string(namespace, name);
    assert(forall|j: int| 0 <= j < ns.len() ==> ns[j] != ':') by {
        if namespace is None {
            assert(ns.len() == 9);
        } else {
            assert(forall|j: int| 0 <= j < ns.len() ==> ns.contains(#[trigger] ns[j]));
        }
    }
    assert(forall|j: int| 0 <= j < name.len() ==> name.contains(#[trigger] name[j]));
    assert(text[ns.len() as int] == ':');
    lemma_colon_index(text, 0, ns.len() as int);
    lemma_colon_index(text, ns.len() as int + 1, text.len() as int);
    assert(text.subrange(0, ns.len() as int) =~= ns);
    assert(text.subrange(ns.len() as int + 1, text.len() as int) =~= name);
}

} // verus!
