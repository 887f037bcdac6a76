//! Room-member queries: parsing the optional comma-separated member-id
//! filter and applying it to the backend's member list, keeping the
//! backend's order. An empty or absent filter keeps every member.

use vstd::prelude::*;
use vstd::string::StrSliceExecFns;

verus! {

/// A room member as the gateway reports it.
#[derive(Debug, Clone, PartialEq, Eq)]
pub struct Member {
    pub wxid: String,
    pub name: String,
    pub state: i32,
}

/// Mathematical model of a [`Member`].
pub struct MemberV {
    pub wxid: Seq<char>,
    pub name: Seq<char>,
    pub state: i32,
}

impl View for Member {
    type V = MemberV;

    open spec fn view(&self) -> MemberV {
        MemberV { wxid: self.wxid@, name: self.name@, state: self.state }
    }
}

/// The query parameters of a room-member request: the room, and an optional
/// comma-separated list of member ids to keep.
pub struct RoomId {
    pub roomid: String,
    pub wxids: Option<String>,
}

impl RoomId {
    /// The parsed member-id filter this query carries.
    pub fn filter_ids(&self) -> (ids: Vec<String>)
        ensures
            ids@.map_values(|t: String| t@) == match self.wxids {
                Some(s) => filter_tokens(s@, 0),
                None => Seq::<Seq<char>>::empty(),
            },
    {
        parse_filter(&self.wxids)
    }
}

/// The whitespace the filter strips around each comma-separated entry.
pub open spec fn is_filter_space(c: char) -> bool {
    c == ' ' || c == '\t' || c == '\n' || c == '\r'
}

/// The text with leading and trailing whitespace removed.
pub open spec fn trim_spec(s: Seq<char>) -> Seq<char>
    decreases s.len(),
{
    if s.len() > 0 && is_filter_space(s[0]) {
        trim_spec(s.drop_first())
    } else if s.len() > 0 && is_filter_space(s.last()) {
        trim_spec(s.drop_last())
    } else {
        s
    }
}

/// Index of the first comma at or after `from`, or the text's length.
pub open spec fn first_comma_at(s: Seq<char>, from: int) -> int
    decreases s.len() - from,
{
    if 0 <= from < s.len() && s[from] != ',' {
        first_comma_at(s, from + 1)
    } else {
        from
    }
}

proof fn lemma_first_comma_bounds(s: Seq<char>, from: int)
    requires
        0 <= from <= s.len(),
    ensures
        from <= first_comma_at(s, from) <= s.len(),
    decreases s.len() - from,
{
    if from < s.len() && s[from] != ',' {
        lemma_first_comma_bounds(s, from + 1);
    }
}

/// The filter entries of the text from `from` on: the comma-separated
/// pieces, each trimmed, with empty pieces dropped.
pub open spec fn filter_tokens(s: Seq<char>, from: int) -> Seq<Seq<char>>
    decreases s.len() - from
        when 0 <= from <= s.len()
        via filter_tokens_decreases
{
    let c = first_comma_at(s, from);
    let tok = trim_spec(s.subrange(from, c));
    let rest = if c < s.len() {
        filter_tokens(s, c + 1)
    } else {
        Seq::<Seq<char>>::empty()
    };
    if tok.len() > 0 {
        seq![tok] + rest
    } else {
        rest
    }
}

#[via_fn]
proof fn filter_tokens_decreases(s: Seq<char>, from: int) {
    lemma_first_comma_bounds(s, from);
}

fn is_space_ex(c: char) -> (r: bool)
    ensures
        r == is_filter_space(c),
{
    c == ' ' || c == '\t' || c == '\n' || c == '\r'
}

fn find_comma(s: &str, from: usize) -> (r: usize)
    requires
        from <= s@.len(),
    ensures
        from <= r <= s@.len(),
        r == first_comma_at(s@, from as int),
    decreases s@.len() - from,
{
    let n = s.unicode_len();
    if from < n && s.get_char(from) != ',' {
        find_comma(s, from + 1)
    } else {
        from
    }
}

fn trim_str(s: &str) -> (r: String)
    ensures
        r@ == trim_spec(s@),
    decreases s@.len(),
{
    let n = s.unicode_len();
    if n > 0 && is_space_ex(s.get_char(0)) {
        let sub = s.substring_char(1, n);
        proof {
            assert(sub@ =~= s@.drop_first());
        }
        trim_str(sub)
    } else if n > 0 && is_space_ex(s.get_char(n - 1)) {
        let sub = s.substring_char(0, n - 1);
        proof {
            assert(sub@ =~= s@.drop_last());
        }
        trim_str(sub)
    } else {
        s.to_owned()
    }
}

fn collect_tokens(s: &str, from: usize, out: &mut Vec<String>)
    requires
        from <= s@.len(),
    ensures
        final(out)@.map_values(|t: String| t@) == old(out)@.map_values(|t: String| t@)
            + filter_tokens(s@, from as int),
    decreases s@.len() - from,
{
    let c = find_comma(s, from);
    let tok_slice = s.substring_char(from, c);
    let tok = trim_str(tok_slice);
    let ghost tokv = tok@;
    let ghost before = out@.map_values(|t: String| t@);
    let ghost kept = tokv.len() > 0;
    if tok.unicode_len() > 0 {
        let ghost prevfull = out@;
        out.push(tok);
        proof {
            let mapped = out@.map_values(|t: String| t@);
            assert forall|j: int| 0 <= j < mapped.len() implies #[trigger] mapped[j] == before.push(
                tokv,
            )[j] by {
                assert(mapped[j] == out@[j]@);
                if j < prevfull.len() {
                    assert(out@[j] == prevfull[j]);
                    assert(prevfull.map_values(|t: String| t@)[j] == prevfull[j]@);
                }
            }
            assert(out@.map_values(|t: String| t@) =~= before.push(tokv));
        }
    }
    let ghost mid = out@.map_values(|t: String| t@);
    let n = s.unicode_len();
    if c < n {
        collect_tokens(s, c + 1, out);
        proof {
            let rest = filter_tokens(s@, c as int + 1);
            assert(out@.map_values(|t: String| t@) == mid + rest);
            if kept {
                assert(before.push(tokv) =~= before + seq![tokv]);
                assert((before + seq![tokv]) + rest =~= before + (seq![tokv] + rest));
                assert(filter_tokens(s@, from as int) == seq![tokv] + rest);
            } else {
                assert(filter_tokens(s@, from as int) == rest);
            }
        }
    } else {
        proof {
            let rest = Seq::<Seq<char>>::empty();
            if kept {
                assert(before.push(tokv) =~= before + (seq![tokv] + rest));
                assert(filter_tokens(s@, from as int) == seq![tokv] + rest);
            } else {
                assert(filter_tokens(s@, from as int) == rest);
                assert(mid =~= before + rest);
            }
        }
    }
}

/// Parses the optional comma-separated filter: each entry trimmed, empty
/// entries dropped, and an absent parameter yielding no entries at all.
pub fn parse_filter(wxids: &Option<String>) -> (ids: Vec<String>)
    ensures
        ids@.map_values(|t: String| t@) == match wxids {
            Some(s) => filter_tokens(s@, 0),
            None => Seq::<Seq<char>>::empty(),
        },
{
    let mut out: Vec<String> = Vec::new();
    proof {
        assert(out@.map_values(|t: String| t@) =~= Seq::<Seq<char>>::empty());
    }
    match wxids {
        Some(s) => {
            collect_tokens(s.as_str(), 0, &mut out);
            proof {
                assert(Seq::<Seq<char>>::empty() + filter_tokens(s@, 0) =~= filter_tokens(s@, 0));
            }
        },
        None => {},
    }
    out
}

/// The filter list names this member id.
pub open spec fn id_list_contains(ids: Seq<Seq<char>>, wxid: Seq<char>) -> bool {
    exists|i: int| 0 <= i < ids.len() && ids[i] == wxid
}

/// An empty filter keeps everyone; a non-empty one keeps exactly the named
/// members.
pub open spec fn member_kept(ids: Seq<Seq<char>>, m: MemberV) -> bool {
    ids.len() == 0 || id_list_contains(ids, m.wxid)
}

/// The members the filter keeps, in their original relative order.
pub open spec fn filtered_members(members: Seq<MemberV>, ids: Seq<Seq<char>>) -> Seq<MemberV>
    decreases members.len(),
{
    if members.len() == 0 {
        Seq::<MemberV>::empty()
    } else {
        let prev = filtered_members(members.drop_last(), ids);
        if member_kept(ids, members.last()) {
            prev.push(members.last())
        } else {
            prev
        }
    }
}

/// Law: an empty or absent filter returns all members unchanged.
pub proof fn lemma_empty_filter_keeps_all(members: Seq<MemberV>)
    ensures
        filtered_members(members, Seq::<Seq<char>>::empty()) == members,
    decreases members.len(),
{
    if members.len() > 0 {
        lemma_empty_filter_keeps_all(members.drop_last());
        assert(members.drop_last().push(members.last()) =~= members);
    }
}

fn contains_id(ids: &Vec<String>, wxid: &String) -> (r: bool)
    ensures
        r == id_list_contains(ids@.map_values(|t: String| t@), wxid@),
{
    let ghost idsv = ids@.map_values(|t: String| t@);
    let n = ids.len();
    let mut i: usize = 0;
    while i < n
        invariant
            0 <= i <= n,
            n == ids@.len(),
            idsv == ids@.map_values(|t: String| t@),
            forall|j: int| 0 <= j < i ==> #[trigger] idsv[j] != wxid@,
        decreases n - i,
    {
        let hit = {
            let e = &ids[i];
            *e == *wxid
        };
        if hit {
            proof {
                assert(idsv[i as int] == ids@[i as int]@);
            }
            return true;
        }
        proof {
            assert(idsv[i as int] == ids@[i as int]@);
        }
        i = i + 1;
    }
    false
}

/// Applies the member filter, keeping the original relative order: with an
/// empty filter every member, otherwise exactly the named ones.
pub fn filter_members(members: Vec<Member>, ids: &Vec<String>) -> (r: Vec<Member>)
    ensures
        r@.map_values(|m: Member| m@) == filtered_members(
            members@.map_values(|m: Member| m@),
            ids@.map_values(|t: String| t@),
        ),
{
    let ghost origm = members@.map_values(|m: Member| m@);
    let ghost idsv = ids@.map_values(|t: String| t@);
    let mut rest = members;
    let mut r: Vec<Member> = Vec::new();
    let ghost mut k: int = 0;
    proof {
        assert(rest@.map_values(|m: Member| m@) =~= origm.skip(0));
        assert(origm.take(0) =~= Seq::<MemberV>::empty());
        assert(r@.map_values(|m: Member| m@) =~= Seq::<MemberV>::empty());
    }
    while rest.len() > 0
        invariant
            0 <= k <= origm.len(),
            rest@.len() == origm.len() - k,
            rest@.map_values(|m: Member| m@) == origm.skip(k),
            idsv == ids@.map_values(|t: String| t@),
            r@.map_values(|m: Member| m@) == filtered_members(origm.take(k), idsv),
        decreases rest@.len(),
    {
        let ghost prev = rest@;
        let m = rest.remove(0);
        proof {
            assert(prev.map_values(|g: Member| g@)[0] == prev[0]@);
            assert(origm.skip(k)[0] == origm[k]);
            assert(m@ == origm[k]);
            let mapped = rest@.map_values(|g: Member| g@);
            assert forall|j: int| 0 <= j < mapped.len() implies #[trigger] mapped[j] == origm.skip(
                k + 1,
            )[j] by {
                assert(mapped[j] == rest@[j]@);
                assert(rest@[j] == prev[j + 1]);
                assert(prev.map_values(|g: Member| g@)[j + 1] == prev[j + 1]@);
                assert(origm.skip(k)[j + 1] == origm[k + 1 + j]);
                assert(origm.skip(k + 1)[j] == origm[k + 1 + j]);
            }
            assert(rest@.map_values(|g: Member| g@) =~= origm.skip(k + 1));
            assert(origm.take(k + 1).drop_last() =~= origm.take(k));
            assert(origm.take(k + 1).last() == origm[k]);
        }
        let keep = ids.len() == 0 || contains_id(ids, &m.wxid);
        proof {
            assert(keep == member_kept(idsv, m@));
        }
        if keep {
            let ghost prevr = r@;
            r.push(m);
            proof {
                let mapped = r@.map_values(|g: Member| g@);
                assert forall|j: int| 0 <= j < mapped.len() implies #[trigger] mapped[j]
                    == filtered_members(origm.take(k + 1), idsv)[j] by {
                    assert(mapped[j] == r@[j]@);
                    if j < prevr.len() {
                        assert(r@[j] == prevr[j]);
                        assert(prevr.map_values(|g: Member| g@)[j] == prevr[j]@);
                    }
                }
                assert(r@.map_values(|g: Member| g@) =~= filtered_members(origm.take(k + 1), idsv));
            }
        }
        proof {
            k = k + 1;
        }
    }
    proof {
        assert(origm.take(k) =~= origm);
    }
    r
}

/// The room-member handler's core: an absent member list (a room the backend
/// knows nothing of) yields the empty list; a present one is filtered.
pub fn filter_room_members(members: Option<Vec<Member>>, ids: &Vec<String>) -> (r: Vec<Member>)
    ensures
        match members {
            Some(ms) => r@.map_values(|m: Member| m@) == filtered_members(
                ms@.map_values(|m: Member| m@),
                ids@.map_values(|t: String| t@),
            ),
            None => r@.len() == 0,
        },
{
    match members {
        Some(ms) => filter_members(ms, ids),
        None => Vec::new(),
    }
}

} // verus!
