//! Identity model: the `{kind}_{id}` fullname reference that links a reply
//! to its parent, and the fixed enumeration of kind tags.

use vstd::prelude::*;

use crate::strings::str_eq;

verus! {

/// The enumerated type tag encoded in a fullname.
#[derive(Clone, Copy, Debug, PartialEq, Eq, Structural)]
pub enum ThingKind {
    Listing,
    Comment,
    Account,
    Link,
    Message,
    Subreddit,
    Award,
    PromoCampaign,
}

impl ThingKind {
    /// The tag under which this kind appears in a fullname string.
    pub open spec fn spec_tag(self) -> Seq<char> {
        match self {
            ThingKind::Listing => "Listing"@,
            ThingKind::Comment => "t1"@,
            ThingKind::Account => "t2"@,
            ThingKind::Link => "t3"@,
            ThingKind::Message => "t4"@,
            ThingKind::Subreddit => "t5"@,
            ThingKind::Award => "t6"@,
            ThingKind::PromoCampaign => "t8"@,
        }
    }

    /// The kind whose tag is `s`, if `s` is a recognized tag.
    pub open spec fn spec_from_string(s: Seq<char>) -> Option<ThingKind> {
        if s == "Listing"@ {
            Some(ThingKind::Listing)
        } else if s == "t1"@ {
            Some(ThingKind::Comment)
        } else if s == "t2"@ {
            Some(ThingKind::Account)
        } else if s == "t3"@ {
            Some(ThingKind::Link)
        } else if s == "t4"@ {
            Some(ThingKind::Message)
        } else if s == "t5"@ {
            Some(ThingKind::Subreddit)
        } else if s == "t6"@ {
            Some(ThingKind::Award)
        } else if s == "t8"@ {
            Some(ThingKind::PromoCampaign)
        } else {
            None
        }
    }

    /// The tag of this kind, e.g. `"t3"` for a link.
    pub fn tag(&self) -> (r: &'static str)
        ensures
            r@ == self.spec_tag(),
    {
        match self {
            ThingKind::Listing => "Listing",
            ThingKind::Comment => "t1",
            ThingKind::Account => "t2",
            ThingKind::Link => "t3",
            ThingKind::Message => "t4",
            ThingKind::Subreddit => "t5",
            ThingKind::Award => "t6",
            ThingKind::PromoCampaign => "t8",
        }
    }

    /// Recognizes a kind tag; an unrecognized tag yields `None`.
    pub fn from_string(kind: &str) -> (r: Option<ThingKind>)
        ensures
            r == Self::spec_from_string(kind@),
    {
        if str_eq(kind, "Listing") {
            Some(ThingKind::Listing)
        } else if str_eq(kind, "t1") {
            Some(ThingKind::Comment)
        } else if str_eq(kind, "t2") {
            Some(ThingKind::Account)
        } else if str_eq(kind, "t3") {
            Some(ThingKind::Link)
        } else if str_eq(kind, "t4") {
            Some(ThingKind::Message)
        } else if str_eq(kind, "t5") {
            Some(ThingKind::Subreddit)
        } else if str_eq(kind, "t6") {
            Some(ThingKind::Award)
        } else if str_eq(kind, "t8") {
            Some(ThingKind::PromoCampaign)
        } else {
            None
        }
    }

    /// The kind tag of a fullname string, if the string is a well-formed
    /// fullname; `None` on any malformed input.
    pub fn from_fullname(fullname: &str) -> (r: Option<ThingKind>)
        ensures
            r == match Fullname::spec_parse(fullname@) {
                Some(p) => Some(p.0),
                None => None::<ThingKind>,
            },
    {
        match Fullname::parse(fullname) {
            Some(f) => Some(f.kind),
            None => None,
        }
    }
}

/// True when position `i` holds the only underscore in `s`.
pub open spec fn only_underscore_at(s: Seq<char>, i: int) -> bool {
    &&& 0 <= i < s.len()
    &&& s[i] == '_'
    &&& forall|j: int| 0 <= j < s.len() && j != i ==> s[j] != '_'
}

/// True when `s` holds exactly one underscore.
pub open spec fn has_one_underscore(s: Seq<char>) -> bool {
    exists|i: int| only_underscore_at(s, i)
}

/// A global item reference: a kind tag plus an id, with the string form
/// `"{kind}_{id}"`.
#[derive(Debug, Clone)]
pub struct Fullname {
    pub kind: ThingKind,
    pub id: String,
}

impl Fullname {
    /// The string form `"{kind}_{id}"`.
    pub open spec fn spec_format(self) -> Seq<char> {
        self.kind.spec_tag() + "_"@ + self.id@
    }

    /// The kind and id encoded in `s`, when `s` splits on exactly one
    /// underscore into a recognized kind tag and an id.
    pub open spec fn spec_parse(s: Seq<char>) -> Option<(ThingKind, Seq<char>)> {
        if has_one_underscore(s) {
            let i = choose|i: int| only_underscore_at(s, i);
            match ThingKind::spec_from_string(s.subrange(0, i)) {
                Some(k) => Some((k, s.subrange(i + 1, s.len() as int))),
                None => None,
            }
        } else {
            None
        }
    }

    /// Formats this fullname as `"{kind}_{id}"`.
    pub fn format(&self) -> (r: String)
        ensures
            r@ == self.spec_format(),
    {
        let mut s = String::from_str(self.kind.tag());
        s.append("_");
        s.append(self.id.as_str());
        proof {
            assert(s@ =~= self.spec_format());
        }
        s
    }

    /// Splits a fullname string into its kind and id. Returns `None` when the
    /// string does not hold exactly one underscore or the kind tag is not
    /// recognized; never panics on malformed input.
    pub fn parse(s: &str) -> (r: Option<Fullname>)
        ensures
            r is Some <==> Self::spec_parse(s@) is Some,
            r is Some ==> r->0.kind == Self::spec_parse(s@).unwrap().0,
            r is Some ==> r->0.id@ == Self::spec_parse(s@).unwrap().1,
    {
        let n = s.unicode_len();
        let mut i: usize = 0;
        while i < n && s.get_char(i) != '_'
            invariant
                n == s@.len(),
                i <= n,
                forall|j: int| 0 <= j < i ==> s@[j] != '_',
            decreases n - i,
        {
            i += 1;
        }
        if i == n {
            // No underscore at all.
            proof {
                assert(!has_one_underscore(s@)) by {
                    if has_one_underscore(s@) {
                        let k = choose|k: int| only_underscore_at(s@, k);
                        assert(s@[k] == '_');
                    }
                }
            }
            return None;
        }
        // s@[i] is the first underscore; reject a second one.
        let mut j: usize = i + 1;
        while j < n
            invariant
                n == s@.len(),
                i < j <= n,
                s@[i as int] == '_',
                forall|k: int| 0 <= k < i ==> s@[k] != '_',
                forall|k: int| i < k < j ==> s@[k] != '_',
            decreases n - j,
        {
            if s.get_char(j) == '_' {
                proof {
                    assert(!has_one_underscore(s@)) by {
                        if has_one_underscore(s@) {
                            let k = choose|k: int| only_underscore_at(s@, k);
                            if k != i {
                                assert(s@[i as int] != '_');
                            } else {
                                assert(s@[j as int] != '_');
                            }
                        }
                    }
                }
                return None;
            }
            j += 1;
        }
        proof {
            assert(only_underscore_at(s@, i as int));
            let k = choose|k: int| only_underscore_at(s@, k);
            assert(k == i) by {
                if k != i {
                    assert(s@[i as int] != '_');
                }
            }
        }
        let tag = s.substring_char(0, i);
        match ThingKind::from_string(tag) {
            Some(kind) => {
                let id_part = s.substring_char(i + 1, n);
                let id = String::from_str(id_part);
                Some(Fullname { kind, id })
            },
            None => None,
        }
    }
}

/// Law: formatting a fullname and parsing the result yields the same kind and
/// id, for every fullname whose id holds no underscore.
pub proof fn lemma_parse_format_roundtrip(x: Fullname)
    requires
        forall|j: int| 0 <= j < x.id@.len() ==> x.id@[j] != '_',
    ensures
        Fullname::spec_parse(x.spec_format()) == Some((x.kind, x.id@)),
{
    lemma_tag_free_of_underscore(x.kind);
    reveal_strlit("_");
    let t = x.kind.spec_tag();
    let s = x.spec_format();
    let i = t.len() as int;
    assert(s[i] == '_');
    assert(only_underscore_at(s, i)) by {
        assert forall|j: int| 0 <= j < s.len() && j != i implies s[j] != '_' by {
            if j < i {
                assert(s[j] == t[j]);
            } else {
                assert(s[j] == x.id@[j - i - 1]);
            }
        }
    }
    let k = choose|k: int| only_underscore_at(s, k);
    assert(k == i) by {
        if k != i {
            assert(s[i] != '_');
        }
    }
    assert(s.subrange(0, i) =~= t);
    lemma_from_string_of_tag(x.kind);
    assert(s.subrange(i + 1, s.len() as int) =~= x.id@);
}

/// No kind tag holds an underscore.
proof fn lemma_tag_free_of_underscore(k: ThingKind)
    ensures
        forall|j: int| 0 <= j < k.spec_tag().len() ==> k.spec_tag()[j] != '_',
{
    reveal_strlit("Listing");
    reveal_strlit("t1");
    reveal_strlit("t2");
    reveal_strlit("t3");
    reveal_strlit("t4");
    reveal_strlit("t5");
    reveal_strlit("t6");
    reveal_strlit("t8");
    let t = k.spec_tag();
    match k {
        ThingKind::Listing => {
            assert forall|j: int| 0 <= j < t.len() implies t[j] != '_' by {
                assert(t[0] == 'L');
                assert(t[1] == 'i');
                assert(t[2] == 's');
                assert(t[3] == 't');
                assert(t[4] == 'i');
                assert(t[5] == 'n');
                assert(t[6] == 'g');
            }
        },
        _ => {
            assert forall|j: int| 0 <= j < t.len() implies t[j] != '_' by {
                assert(t[0] == 't');
                assert(t[1] != '_');
            }
        },
    }
}

/// Recognizing a kind's own tag yields that kind back.
proof fn lemma_from_string_of_tag(k: ThingKind)
    ensures
        ThingKind::spec_from_string(k.spec_tag()) == Some(k),
{
    reveal_strlit("Listing");
    reveal_strlit("t1");
    reveal_strlit("t2");
    reveal_strlit("t3");
    reveal_strlit("t4");
    reveal_strlit("t5");
    reveal_strlit("t6");
    reveal_strlit("t8");
    assert("Listing"@.len() == 7);
    assert("t1"@.len() == 2);
    assert("t2"@.len() == 2);
    assert("t3"@.len() == 2);
    assert("t4"@.len() == 2);
    assert("t5"@.len() == 2);
    assert("t6"@.len() == 2);
    assert("t8"@.len() == 2);
    assert("t1"@[1] == '1');
    assert("t2"@[1] == '2');
    assert("t3"@[1] == '3');
    assert("t4"@[1] == '4');
    assert("t5"@[1] == '5');
    assert("t6"@[1] == '6');
    assert("t8"@[1] == '8');
    match k {
        ThingKind::Listing => {
            assert(ThingKind::spec_from_string("Listing"@) == Some(ThingKind::Listing));
        },
        ThingKind::Comment => {
            assert(ThingKind::spec_from_string("t1"@) == Some(ThingKind::Comment));
        },
        ThingKind::Account => {
            assert(ThingKind::spec_from_string("t2"@) == Some(ThingKind::Account));
        },
        ThingKind::Link => {
            assert(ThingKind::spec_from_string("t3"@) == Some(ThingKind::Link));
        },
        ThingKind::Message => {
            assert(ThingKind::spec_from_string("t4"@) == Some(ThingKind::Message));
        },
        ThingKind::Subreddit => {
            assert(ThingKind::spec_from_string("t5"@) == Some(ThingKind::Subreddit));
        },
        ThingKind::Award => {
            assert(ThingKind::spec_from_string("t6"@) == Some(ThingKind::Award));
        },
        ThingKind::PromoCampaign => {
            assert(ThingKind::spec_from_string("t8"@) == Some(ThingKind::PromoCampaign));
        },
    }
}

} // verus!
