use vstd::prelude::*;

use crate::macaddr::mac_text;
use crate::macaddr::mac_format;
use vstd::string::StrSliceExecFns;
use vstd::string::StringExecFns;

verus! {

/// The fields of a line split on single spaces; splitting keeps empty
/// pieces, so adjacent separators yield empty fields.
pub open spec fn split_sp(s: Seq<char>) -> Seq<Seq<char>>
    decreases s.len(),
{
    if s.len() == 0 {
        seq![Seq::<char>::empty()]
    } else if s[0] == ' ' {
        seq![Seq::<char>::empty()] + split_sp(s.skip(1))
    } else {
        let r = split_sp(s.skip(1));
        seq![seq![s[0]] + r[0]] + r.skip(1)
    }
}

/// Splitting yields at least one field.
pub proof fn lemma_split_nonempty(s: Seq<char>)
    ensures
        split_sp(s).len() >= 1,
    decreases s.len(),
{
    if s.len() == 0 {
    } else {
        lemma_split_nonempty(s.skip(1));
    }
}

/// The hardware-address field and the display-name field of one lease
/// line: fields one and three, present only on lines of at least four
/// space-separated fields.
pub open spec fn lease_fields(line: Seq<char>) -> Option<(Seq<char>, Seq<char>)> {
    let f = split_sp(line);
    if f.len() >= 4 {
        Some((f[1], f[3]))
    } else {
        None
    }
}

/// Splits a line on single spaces, keeping empty pieces.
pub fn split_spaces(s: &str) -> (r: Vec<String>)
    ensures
        r.deep_view() == split_sp(s@),
    decreases s@.len(),
{
    let n = s.unicode_len();
    if n == 0 {
        let mut v: Vec<String> = Vec::new();
        v.push(String::new());
        proof {
            assert(v.deep_view() =~= split_sp(s@));
        }
        v
    } else {
        let c = s.get_char(0);
        let rest = s.substring_char(1, n);
        proof {
            assert(rest@ == s@.skip(1));
        }
        let mut r = split_spaces(rest);
        proof {
            lemma_split_nonempty(rest@);
            assert(r.deep_view().len() == r@.len());
        }
        if c == ' ' {
            r.insert(0, String::new());
            proof {
                assert(r.deep_view() =~= split_sp(s@));
            }
            r
        } else {
            let mut f = String::new();
            f.push(c);
            f.append(r[0].as_str());
            r[0] = f;
            proof {
                assert(r.deep_view() =~= split_sp(s@));
            }
            r
        }
    }
}

/// Reads one lease line: the address is field one, the name field three;
/// lines of fewer than four space-separated fields carry nothing.
pub fn parse_lease_line(line: &str) -> (r: Option<(String, String)>)
    ensures
        match r {
            Some(p) => lease_fields(line@) == Some((p.0@, p.1@)),
            None => lease_fields(line@) is None,
        },
{
    let f = split_spaces(line);
    if f.len() >= 4 {
        let addr = f[1].clone();
        let name = f[3].clone();
        proof {
            assert(f.deep_view()[1] == addr@);
            assert(f.deep_view()[3] == name@);
        }
        Some((addr, name))
    } else {
        None
    }
}

/// The address-to-name pairs read from a sequence of lease lines, in order.
pub open spec fn leases_of(lines: Seq<Seq<char>>) -> Seq<(Seq<char>, Seq<char>)>
    decreases lines.len(),
{
    if lines.len() == 0 {
        Seq::empty()
    } else {
        (match lease_fields(lines[0]) {
            Some(p) => seq![p],
            None => Seq::empty(),
        }) + leases_of(lines.skip(1))
    }
}

/// The name paired with `key`, the last pair winning where one address
/// appears on several lines.
pub open spec fn lookup_lease(s: Seq<(Seq<char>, Seq<char>)>, key: Seq<char>) -> Option<Seq<char>>
    decreases s.len(),
{
    if s.len() == 0 {
        None
    } else if s.last().0 == key {
        Some(s.last().1)
    } else {
        lookup_lease(s.drop_last(), key)
    }
}

/// The display name for a hardware address: the looked-up name, or the
/// sentinel where the address is on no lease line.
pub open spec fn resolve_text(s: Seq<(Seq<char>, Seq<char>)>, addr: Seq<u8>) -> Seq<char> {
    match lookup_lease(s, mac_text(addr)) {
        Some(n) => n,
        None => "unknown"@,
    }
}

/// The transient address-to-name mapping rebuilt from the lease source on
/// every reporting interval.
pub struct LeaseMap {
    entries: Vec<(String, String)>,
}

impl View for LeaseMap {
    type V = Seq<(Seq<char>, Seq<char>)>;

    closed spec fn view(&self) -> Seq<(Seq<char>, Seq<char>)> {
        self.entries@.map_values(|p: (String, String)| (p.0@, p.1@))
    }
}

/// Builds the lease mapping from the lines of the lease source.
pub fn build_lease_map(lines: &Vec<String>) -> (r: LeaseMap)
    ensures
        r@ == leases_of(lines.deep_view()),
{
    let ghost ls = lines.deep_view();
    let mut m = LeaseMap { entries: Vec::new() };
    let mut i: usize = 0;
    proof {
        assert(ls.skip(0) =~= ls);
        assert(m@ =~= Seq::<(Seq<char>, Seq<char>)>::empty());
    }
    while i < lines.len()
        invariant
            i <= lines@.len(),
            ls == lines.deep_view(),
            ls.len() == lines@.len(),
            m@ + leases_of(ls.skip(i as int)) == leases_of(ls),
        decreases lines@.len() - i,
    {
        proof {
            assert(ls.skip(i as int)[0] == ls[i as int]);
            assert(ls[i as int] == lines@[i as int]@);
            assert(ls.skip(i as int).skip(1) =~= ls.skip(i as int + 1));
        }
        let ghost m0 = m@;
        match parse_lease_line(&lines[i]) {
            Some(p) => {
                let ghost pv = (p.0@, p.1@);
                m.entries.push(p);
                proof {
                    assert(m@ =~= m0.push(pv));
                }
            },
            None => {},
        }
        proof {
            assert(m@ + leases_of(ls.skip(i as int + 1)) =~= leases_of(ls));
        }
        i = i + 1;
    }
    proof {
        assert(leases_of(ls.skip(i as int)) =~= Seq::<(Seq<char>, Seq<char>)>::empty());
        assert(m@ =~= leases_of(ls));
    }
    m
}

/// Resolves a hardware address to its lease name, or to the sentinel
/// `unknown` where no lease line names it; where one address appears on
/// several lines, the last line wins.
pub fn resolve_lease(map: &LeaseMap, key: &[u8; 6]) -> (r: String)
    ensures
        r@ == resolve_text(map@, key@),
{
    let ks = mac_format(key.as_slice());
    let mut i: usize = map.entries.len();
    proof {
        assert(map@.take(i as int) =~= map@);
    }
    while i > 0
        invariant
            i <= map.entries@.len(),
            map@.len() == map.entries@.len(),
            ks@ == mac_text(key@),
            lookup_lease(map@, ks@) == lookup_lease(map@.take(i as int), ks@),
        decreases i,
    {
        i = i - 1;
        proof {
            assert(map@.take(i as int + 1).last() == map@[i as int]);
            assert(map@.take(i as int + 1).drop_last() =~= map@.take(i as int));
            assert(map@[i as int] == (map.entries@[i as int].0@, map.entries@[i as int].1@));
        }
        if map.entries[i].0.eq(&ks) {
            return map.entries[i].1.clone();
        }
    }
    proof {
        assert(map@.take(0) =~= Seq::<(Seq<char>, Seq<char>)>::empty());
    }
    "unknown".to_owned()
}

} // verus!
