//! The enabled-channel set: the channel identifiers where resolution is
//! active, together with the codec for its persisted form, a flat JSON
//! array of unsigned 64-bit numbers. Reading and writing the file itself
//! is left to the surrounding program; this module parses and renders the
//! file's text and proves that the two are inverses.

use vstd::prelude::*;
use crate::text::{
    is_digit, digit_val, dec_rep, dec_val, all_digits, lemma_dec_rep_digits,
    lemma_dec_val_prefix_le, u64_to_string, str_to_chars,
};

verus! {

/// JSON whitespace.
pub open spec fn is_ws(c: char) -> bool {
    c == ' ' || c == '\t' || c == '\n' || c == '\r'
}

/// The suffix that remains after the leading whitespace.
pub open spec fn skip_ws(s: Seq<char>) -> Seq<char>
    decreases s.len(),
{
    if s.len() > 0 && is_ws(s[0]) {
        skip_ws(s.skip(1))
    } else {
        s
    }
}

/// Count of leading decimal digits.
pub open spec fn num_prefix_len(s: Seq<char>) -> int
    decreases s.len(),
{
    if s.len() > 0 && is_digit(s[0]) {
        1 + num_prefix_len(s.skip(1))
    } else {
        0
    }
}

pub proof fn lemma_skip_ws_len(s: Seq<char>)
    ensures
        skip_ws(s).len() <= s.len(),
    decreases s.len(),
{
    if s.len() > 0 && is_ws(s[0]) {
        lemma_skip_ws_len(s.skip(1));
    }
}

pub proof fn lemma_num_prefix(s: Seq<char>)
    ensures
        0 <= num_prefix_len(s) <= s.len(),
        all_digits(s.take(num_prefix_len(s))),
    decreases s.len(),
{
    if s.len() > 0 && is_digit(s[0]) {
        lemma_num_prefix(s.skip(1));
        let d = num_prefix_len(s);
        let tail_digits = s.skip(1).take(d - 1);
        assert(all_digits(tail_digits));
        assert forall|k: int| 0 <= k < s.take(d).len() implies is_digit(s.take(d)[k]) by {
            if k == 0 {
                assert(s.take(d)[0] == s[0]);
            } else {
                assert(s.take(d)[k] == tail_digits[k - 1]);
            }
        }
    }
}

/// Digits followed by a non-digit: the digit prefix is exactly the digits.
pub proof fn lemma_num_prefix_concat(a: Seq<char>, b: Seq<char>)
    requires
        all_digits(a),
        b.len() == 0 || !is_digit(b[0]),
    ensures
        num_prefix_len(a + b) == a.len(),
    decreases a.len(),
{
    if a.len() == 0 {
        assert(a + b =~= b);
    } else {
        assert((a + b)[0] == a[0]);
        assert((a + b).skip(1) =~= a.skip(1) + b);
        assert(all_digits(a.skip(1)));
        lemma_num_prefix_concat(a.skip(1), b);
    }
}

/// One or more numbers separated by commas, then a closing bracket, then
/// only whitespace; whitespace may stand between any two tokens. Returns
/// the numbers in order of appearance.
pub open spec fn parse_items(s0: Seq<char>) -> Option<Seq<u64>>
    decreases s0.len(),
    via parse_items_decreases
{
    let s = skip_ws(s0);
    let d = num_prefix_len(s);
    if d == 0 {
        Option::None
    } else if s[0] == '0' && d > 1 {
        Option::None
    } else if dec_val(s.take(d)) > u64::MAX {
        Option::None
    } else {
        let n = dec_val(s.take(d)) as u64;
        let rest = skip_ws(s.skip(d));
        if rest.len() == 0 {
            Option::None
        } else if rest[0] == ']' {
            if skip_ws(rest.skip(1)).len() == 0 {
                Option::Some(seq![n])
            } else {
                Option::None
            }
        } else if rest[0] == ',' {
            match parse_items(rest.skip(1)) {
                Option::Some(v) => Option::Some(seq![n] + v),
                Option::None => Option::None,
            }
        } else {
            Option::None
        }
    }
}

#[via_fn]
proof fn parse_items_decreases(s0: Seq<char>) {
    lemma_skip_ws_len(s0);
    let s = skip_ws(s0);
    lemma_num_prefix(s);
    lemma_skip_ws_len(s.skip(num_prefix_len(s)));
}

/// The persisted channel-list text: a JSON array of unsigned 64-bit numbers,
/// possibly empty, with nothing but whitespace around it.
pub open spec fn parse_channel_list(t: Seq<char>) -> Option<Seq<u64>> {
    let s = skip_ws(t);
    if s.len() == 0 || s[0] != '[' {
        Option::None
    } else {
        let r = skip_ws(s.skip(1));
        if r.len() > 0 && r[0] == ']' {
            if skip_ws(r.skip(1)).len() == 0 {
                Option::Some(Seq::<u64>::empty())
            } else {
                Option::None
            }
        } else {
            parse_items(s.skip(1))
        }
    }
}

/// The canonical rendering of the numbers: comma-separated, no spaces.
pub open spec fn render_items(v: Seq<u64>) -> Seq<char>
    decreases v.len(),
{
    if v.len() == 0 {
        Seq::<char>::empty()
    } else if v.len() == 1 {
        dec_rep(v[0] as nat)
    } else {
        dec_rep(v[0] as nat) + seq![','] + render_items(v.skip(1))
    }
}

/// The canonical persisted text for a list of channel identifiers.
pub open spec fn render_channel_list(v: Seq<u64>) -> Seq<char> {
    seq!['['] + render_items(v) + seq![']']
}

proof fn lemma_parse_render_items(v: Seq<u64>)
    requires
        v.len() >= 1,
    ensures
        parse_items(render_items(v) + seq![']']) == Option::Some(v),
    decreases v.len(),
{
    let s0 = render_items(v) + seq![']'];
    lemma_dec_rep_digits(v[0] as nat);
    let dr = dec_rep(v[0] as nat);
    let d = dr.len() as int;
    assert(!is_ws(s0[0]));
    assert(skip_ws(s0) == s0);
    lemma_dec_val_prefix_le(dr, d);
    if v.len() == 1 {
        assert(s0 =~= dr + seq![']']);
        lemma_num_prefix_concat(dr, seq![']']);
        assert(num_prefix_len(s0) == d);
        assert(s0.take(d) =~= dr);
        assert(s0.skip(d) =~= seq![']']);
        assert(!is_ws(']'));
        let rest = skip_ws(s0.skip(d));
        assert(rest =~= seq![']']);
        assert(rest.skip(1) =~= Seq::<char>::empty());
        assert(skip_ws(rest.skip(1)).len() == 0);
        assert(parse_items(s0) == Option::Some(seq![v[0]]));
        assert(seq![v[0]] =~= v);
    } else {
        let tail = render_items(v.skip(1));
        assert(render_items(v) == dr + seq![','] + tail);
        let after = seq![','] + tail + seq![']'];
        assert(s0 =~= dr + after);
        assert(!is_digit(',')) by {
            assert(',' as int == 44);
        }
        lemma_num_prefix_concat(dr, after);
        assert(num_prefix_len(s0) == d);
        assert(s0.take(d) =~= dr);
        assert(s0.skip(d) =~= after);
        assert(!is_ws(','));
        let rest = skip_ws(s0.skip(d));
        assert(rest == s0.skip(d));
        assert(rest[0] == ',');
        assert(rest.len() > 0);
        assert(rest[0] != ']');
        assert(rest.skip(1) =~= tail + seq![']']);
        lemma_parse_render_items(v.skip(1));
        assert(parse_items(rest.skip(1)) == Option::Some(v.skip(1)));
        assert(seq![v[0]] + v.skip(1) =~= v);
    }
}

/// The codec round trip: parsing a rendered list of identifiers yields
/// exactly that list.
pub proof fn lemma_channel_list_round_trip(v: Seq<u64>)
    ensures
        parse_channel_list(render_channel_list(v)) == Option::Some(v),
{
    let t = render_channel_list(v);
    assert(t[0] == '[');
    assert(!is_ws('['));
    assert(skip_ws(t) == t);
    assert(t.skip(1) =~= render_items(v) + seq![']']);
    if v.len() == 0 {
        assert(t.skip(1) =~= seq![']']);
        assert(!is_ws(']'));
        let r = skip_ws(t.skip(1));
        assert(r =~= seq![']']);
        assert(r.skip(1) =~= Seq::<char>::empty());
        assert(skip_ws(r.skip(1)).len() == 0);
    } else {
        lemma_dec_rep_digits(v[0] as nat);
        let dr = dec_rep(v[0] as nat);
        let r = skip_ws(t.skip(1));
        assert(t.skip(1)[0] == dr[0]);
        assert(!is_ws(dr[0]));
        assert(r == t.skip(1));
        assert(is_digit(r[0]));
        assert(r[0] != ']') by {
            assert(']' as int == 93);
        }
        lemma_parse_render_items(v);
    }
}

fn skip_ws_exec(v: &Vec<char>, i: usize) -> (j: usize)
    requires
        i <= v@.len(),
    ensures
        i <= j <= v@.len(),
        v@.skip(j as int) == skip_ws(v@.skip(i as int)),
    decreases v@.len() - i,
{
    if i < v.len() {
        let c = v[i];
        if c == ' ' || c == '\t' || c == '\n' || c == '\r' {
            proof {
                assert(v@.skip(i as int)[0] == v@[i as int]);
                assert(v@.skip(i as int).skip(1) =~= v@.skip(i as int + 1));
            }
            return skip_ws_exec(v, i + 1);
        }
        proof {
            assert(v@.skip(i as int)[0] == v@[i as int]);
            assert(!is_ws(v@.skip(i as int)[0]));
        }
    }
    proof {
        assert(skip_ws(v@.skip(i as int)) == v@.skip(i as int));
    }
    i
}

fn digits_end(v: &Vec<char>, i: usize) -> (j: usize)
    requires
        i <= v@.len(),
    ensures
        i <= j <= v@.len(),
        j - i == num_prefix_len(v@.skip(i as int)),
    decreases v@.len() - i,
{
    if i < v.len() {
        let c = v[i];
        if c as u32 >= 48 && c as u32 <= 57 {
            proof {
                assert(v@.skip(i as int)[0] == v@[i as int]);
                assert(is_digit(v@.skip(i as int)[0]));
                assert(v@.skip(i as int).skip(1) =~= v@.skip(i as int + 1));
            }
            let j = digits_end(v, i + 1);
            return j;
        }
        proof {
            assert(v@.skip(i as int)[0] == v@[i as int]);
            assert(!is_digit(v@.skip(i as int)[0]));
        }
    }
    i
}

fn dec_val_checked(v: &Vec<char>, i: usize, j: usize) -> (r: Option<u64>)
    requires
        i <= j <= v@.len(),
        all_digits(v@.subrange(i as int, j as int)),
    ensures
        match r {
            Option::Some(n) => n == dec_val(v@.subrange(i as int, j as int)),
            Option::None => dec_val(v@.subrange(i as int, j as int)) > u64::MAX,
        },
    decreases j - i,
{
    let ghost sub = v@.subrange(i as int, j as int);
    if i == j {
        proof {
            assert(sub =~= Seq::<char>::empty());
        }
        return Option::Some(0);
    }
    let ghost pre = v@.subrange(i as int, j as int - 1);
    proof {
        assert(sub.take(sub.len() - 1) =~= pre);
        assert(sub.last() == v@[j as int - 1]);
        assert(all_digits(pre)) by {
            assert(forall|k: int| 0 <= k < pre.len() ==> pre[k] == sub[k]);
        }
        assert(is_digit(sub.last()));
        lemma_dec_val_prefix_le(pre, pre.len() as int);
        assert(pre.take(pre.len() as int) =~= pre);
    }
    let p = dec_val_checked(v, i, j - 1);
    match p {
        Option::None => {
            proof {
                assert(dec_val(sub) == dec_val(pre) * 10 + digit_val(sub.last()));
                assert(dec_val(pre) * 10 >= dec_val(pre));
                assert(digit_val(sub.last()) >= 0);
            }
            Option::None
        },
        Option::Some(a) => {
            let c = v[j - 1];
            let d: u64 = (c as u32 - 48) as u64;
            proof {
                assert(d == digit_val(sub.last()));
            }
            match a.checked_mul(10) {
                Option::None => {
                    proof {
                        assert(a * 10 > u64::MAX);
                        assert(dec_val(sub) == a * 10 + digit_val(sub.last()));
                    }
                    Option::None
                },
                Option::Some(m) => match m.checked_add(d) {
                    Option::None => {
                        proof {
                            assert(dec_val(sub) == a * 10 + d);
                        }
                        Option::None
                    },
                    Option::Some(n) => Option::Some(n),
                },
            }
        },
    }
}

fn parse_items_exec(v: &Vec<char>, i: usize, out: &mut Vec<u64>) -> (ok: bool)
    requires
        i <= v@.len(),
    ensures
        ok <==> parse_items(v@.skip(i as int)) is Some,
        ok ==> final(out)@ == old(out)@ + parse_items(v@.skip(i as int))->Some_0,
    decreases v@.len() - i,
{
    let ghost s0 = v@.skip(i as int);
    let start = skip_ws_exec(v, i);
    let ghost s = skip_ws(s0);
    proof {
        assert(v@.skip(start as int) == s);
    }
    let j = digits_end(v, start);
    let ghost d = num_prefix_len(s);
    proof {
        assert(d == j - start);
    }
    if j == start {
        return false;
    }
    let c0 = v[start];
    proof {
        assert(s[0] == v@[start as int]);
    }
    if c0 == '0' && j - start > 1 {
        return false;
    }
    proof {
        lemma_num_prefix(s);
        assert(s.take(d) =~= v@.subrange(start as int, j as int));
    }
    let val = dec_val_checked(v, start, j);
    let n: u64;
    match val {
        Option::None => {
            return false;
        },
        Option::Some(m) => {
            n = m;
        },
    }
    proof {
        assert(n == dec_val(s.take(d)));
        assert(s.skip(d) =~= v@.skip(j as int));
    }
    let k = skip_ws_exec(v, j);
    let ghost rest = skip_ws(s.skip(d));
    proof {
        assert(v@.skip(k as int) == rest);
        assert(rest.len() == v@.len() - k);
    }
    if k == v.len() {
        return false;
    }
    let c = v[k];
    proof {
        assert(rest[0] == v@[k as int]);
        assert(rest.skip(1) =~= v@.skip(k as int + 1));
    }
    if c == ']' {
        let e = skip_ws_exec(v, k + 1);
        proof {
            assert(skip_ws(rest.skip(1)) == v@.skip(e as int));
        }
        if e == v.len() {
            out.push(n);
            proof {
                assert(skip_ws(rest.skip(1)).len() == 0);
                assert(parse_items(s0) == Option::Some(seq![n]));
                assert(final(out)@ =~= old(out)@ + seq![n]);
            }
            return true;
        }
        proof {
            assert(skip_ws(rest.skip(1)).len() > 0);
        }
        return false;
    }
    if c == ',' {
        out.push(n);
        let ghost mid = out@;
        let ok = parse_items_exec(v, k + 1, out);
        proof {
            if ok {
                let w = parse_items(v@.skip(k as int + 1))->Some_0;
                assert(parse_items(s0) == Option::Some(seq![n] + w));
                assert(final(out)@ == mid + w);
                assert(mid + w =~= old(out)@ + (seq![n] + w));
            }
        }
        return ok;
    }
    proof {
        assert(rest[0] != ']' && rest[0] != ',');
    }
    false
}

/// Parses a persisted channel file; `None` on anything but a well-formed array
/// of unsigned 64-bit numbers.
pub fn parse_channel_text(t: &str) -> (r: Option<Vec<u64>>)
    ensures
        match r {
            Option::Some(ids) => parse_channel_list(t@) == Option::Some(ids@),
            Option::None => parse_channel_list(t@) is None,
        },
{
    let v = str_to_chars(t);
    proof {
        assert(v@.skip(0) =~= t@);
    }
    let start = skip_ws_exec(&v, 0);
    let ghost s = skip_ws(t@);
    proof {
        assert(v@.skip(start as int) == s);
        assert(s.len() == v@.len() - start);
    }
    if start == v.len() {
        return Option::None;
    }
    let c = v[start];
    proof {
        assert(s[0] == v@[start as int]);
    }
    if c != '[' {
        return Option::None;
    }
    proof {
        assert(s.skip(1) =~= v@.skip(start as int + 1));
    }
    let rs = skip_ws_exec(&v, start + 1);
    let ghost r = skip_ws(s.skip(1));
    proof {
        assert(v@.skip(rs as int) == r);
        assert(r.len() == v@.len() - rs);
    }
    if rs < v.len() {
        let c2 = v[rs];
        proof {
            assert(r[0] == v@[rs as int]);
        }
        if c2 == ']' {
            proof {
                assert(r.skip(1) =~= v@.skip(rs as int + 1));
            }
            let e = skip_ws_exec(&v, rs + 1);
            proof {
                assert(skip_ws(r.skip(1)) == v@.skip(e as int));
            }
            if e == v.len() {
                let ids: Vec<u64> = Vec::new();
                proof {
                    assert(ids@ =~= Seq::<u64>::empty());
                }
                return Option::Some(ids);
            }
            return Option::None;
        }
    }
    let mut out: Vec<u64> = Vec::new();
    let ok = parse_items_exec(&v, start + 1, &mut out);
    if ok {
        proof {
            assert(out@ =~= Seq::<u64>::empty() + parse_items(s.skip(1))->Some_0);
        }
        Option::Some(out)
    } else {
        Option::None
    }
}

fn render_items_exec(ids: &Vec<u64>, i: usize) -> (r: String)
    requires
        i <= ids@.len(),
    ensures
        r@ == render_items(ids@.skip(i as int)),
    decreases ids@.len() - i,
{
    proof {
        reveal_strlit("");
        reveal_strlit(",");
    }
    if i == ids.len() {
        let r = String::from_str("");
        proof {
            assert(r@ =~= render_items(ids@.skip(i as int)));
        }
        r
    } else if i + 1 == ids.len() {
        let r = u64_to_string(ids[i]);
        proof {
            assert(ids@.skip(i as int)[0] == ids@[i as int]);
            assert(ids@.skip(i as int).len() == 1);
        }
        r
    } else {
        let mut s = u64_to_string(ids[i]);
        s.append(",");
        let t = render_items_exec(ids, i + 1);
        s.append(t.as_str());
        proof {
            assert(ids@.skip(i as int)[0] == ids@[i as int]);
            assert(ids@.skip(i as int).skip(1) =~= ids@.skip(i as int + 1));
            assert(s@ =~= render_items(ids@.skip(i as int)));
        }
        s
    }
}

proof fn lemma_to_set_push(s: Seq<u64>, x: u64)
    ensures
        s.push(x).to_set() == s.to_set().insert(x),
{
    assert(s.push(x).to_set() =~= s.to_set().insert(x)) by {
        assert forall|y: u64| #[trigger] s.push(x).contains(y) implies s.contains(y) || y == x by {
            let idx = choose|idx: int| 0 <= idx < s.push(x).len() && s.push(x)[idx] == y;
            if idx < s.len() {
                assert(s[idx] == y);
            }
        }
        assert forall|y: u64| s.contains(y) implies #[trigger] s.push(x).contains(y) by {
            let idx = choose|idx: int| 0 <= idx < s.len() && s[idx] == y;
            assert(s.push(x)[idx] == y);
        }
        assert(s.push(x)[s.len() as int] == x);
    }
}

/// The set of channels where resolution is active. Its persisted form is
/// the text that `save` returns and `new` accepts.
pub struct ChannelState {
    channels: Vec<u64>,
}

impl View for ChannelState {
    type V = Set<u64>;

    closed spec fn view(&self) -> Set<u64> {
        self.channels@.to_set()
    }
}

impl ChannelState {
    /// The stored identifiers, in their stored order.
    pub closed spec fn id_list(&self) -> Seq<u64> {
        self.channels@
    }

    /// Each identifier is stored once.
    pub closed spec fn wf(&self) -> bool {
        self.channels@.no_duplicates()
    }

    /// Builds the set from the persisted file's content: `None` stands
    /// for an absent file. Malformed content gives the empty set; this
    /// constructor never fails.
    pub fn new(content: Option<&str>) -> (s: Self)
        ensures
            s.wf(),
            match content {
                Option::None => s@ == Set::<u64>::empty(),
                Option::Some(t) => match parse_channel_list(t@) {
                    Option::Some(ids) => s@ == ids.to_set(),
                    Option::None => s@ == Set::<u64>::empty(),
                },
            },
    {
        proof {
            assert(Seq::<u64>::empty().to_set() =~= Set::<u64>::empty());
        }
        match content {
            Option::None => ChannelState { channels: Vec::new() },
            Option::Some(t) => {
                match parse_channel_text(t) {
                    Option::None => ChannelState { channels: Vec::new() },
                    Option::Some(ids) => {
                        let mut s = ChannelState { channels: Vec::new() };
                        let mut i: usize = 0;
                        while i < ids.len()
                            invariant
                                0 <= i <= ids@.len(),
                                s.wf(),
                                s@ == ids@.take(i as int).to_set(),
                            decreases ids@.len() - i,
                        {
                            s.add(ids[i]);
                            proof {
                                assert(ids@.take(i as int).push(ids@[i as int])
                                    =~= ids@.take(i as int + 1));
                                lemma_to_set_push(ids@.take(i as int), ids@[i as int]);
                            }
                            i = i + 1;
                        }
                        proof {
                            assert(ids@.take(ids@.len() as int) =~= ids@);
                        }
                        s
                    },
                }
            },
        }
    }

    /// True exactly when the channel is enabled.
    pub fn contains(&self, channel_id: u64) -> (r: bool)
        ensures
            r == self@.contains(channel_id),
    {
        let mut i: usize = 0;
        while i < self.channels.len()
            invariant
                0 <= i <= self.channels@.len(),
                forall|k: int| 0 <= k < i ==> self.channels@[k] != channel_id,
            decreases self.channels@.len() - i,
        {
            if self.channels[i] == channel_id {
                proof {
                    assert(self.channels@.contains(channel_id));
                }
                return true;
            }
            i = i + 1;
        }
        proof {
            assert(!self.channels@.contains(channel_id));
        }
        false
    }

    /// Idempotent insert.
    pub fn add(&mut self, channel_id: u64)
        requires
            old(self).wf(),
        ensures
            final(self).wf(),
            final(self)@ == old(self)@.insert(channel_id),
    {
        if !self.contains(channel_id) {
            proof {
                assert(!self.channels@.contains(channel_id));
                lemma_to_set_push(self.channels@, channel_id);
            }
            let ghost pre = self.channels@;
            self.channels.push(channel_id);
            proof {
                assert(self.channels@.no_duplicates()) by {
                    assert(forall|k: int|
                        0 <= k < pre.len() ==> self.channels@[k] == pre[k]);
                    assert(self.channels@[pre.len() as int] == channel_id);
                }
            }
        } else {
            proof {
                assert(self@.insert(channel_id) =~= self@);
            }
        }
    }

    /// Idempotent delete; removing an absent identifier changes nothing.
    pub fn remove(&mut self, channel_id: u64)
        requires
            old(self).wf(),
        ensures
            final(self).wf(),
            final(self)@ == old(self)@.remove(channel_id),
    {
        let ghost pre = self.channels@;
        let mut kept: Vec<u64> = Vec::new();
        let mut i: usize = 0;
        while i < self.channels.len()
            invariant
                0 <= i <= self.channels@.len(),
                self.channels@ == pre,
                pre.no_duplicates(),
                kept@.no_duplicates(),
                forall|y: u64|
                    #[trigger] kept@.contains(y)
                        <==> (pre.take(i as int).contains(y) && y != channel_id),
            decreases self.channels@.len() - i,
        {
            let e = self.channels[i];
            proof {
                assert(pre.take(i as int).push(pre[i as int]) =~= pre.take(i as int + 1));
            }
            if e != channel_id {
                proof {
                    assert(!kept@.contains(e)) by {
                        if kept@.contains(e) {
                            assert(pre.take(i as int).contains(e));
                            let idx = choose|idx: int|
                                0 <= idx < i && pre.take(i as int)[idx] == e;
                            assert(pre[idx] == pre[i as int]);
                        }
                    }
                }
                let ghost kpre = kept@;
                kept.push(e);
                proof {
                    assert(kept@.no_duplicates()) by {
                        assert(forall|k: int| 0 <= k < kpre.len() ==> kept@[k] == kpre[k]);
                        assert(kept@[kpre.len() as int] == e);
                    }
                    assert forall|y: u64| #[trigger] kept@.contains(y)
                        implies (pre.take(i as int + 1).contains(y) && y != channel_id) by {
                        let idx = choose|idx: int| 0 <= idx < kept@.len() && kept@[idx] == y;
                        if idx < kpre.len() {
                            assert(kpre[idx] == y);
                            assert(kpre.contains(y));
                        }
                        assert(pre.take(i as int + 1).contains(y)) by {
                            if y == e {
                                assert(pre.take(i as int + 1)[i as int] == e);
                            } else {
                                assert(kpre.contains(y));
                                assert(pre.take(i as int).contains(y));
                                let jdx = choose|jdx: int|
                                    0 <= jdx < i && pre.take(i as int)[jdx] == y;
                                assert(pre.take(i as int + 1)[jdx] == y);
                            }
                        }
                    }
                    assert forall|y: u64|
                        pre.take(i as int + 1).contains(y) && y != channel_id
                        implies #[trigger] kept@.contains(y) by {
                        let idx = choose|idx: int|
                            0 <= idx <= i && #[trigger] pre.take(i as int + 1)[idx] == y;
                        if idx < i {
                            assert(pre.take(i as int)[idx] == y);
                            assert(pre.take(i as int).contains(y));
                            assert(kpre.contains(y));
                            let jdx = choose|jdx: int|
                                0 <= jdx < kpre.len() && kpre[jdx] == y;
                            assert(kept@[jdx] == y);
                        } else {
                            assert(y == e);
                            assert(kept@[kpre.len() as int] == e);
                        }
                    }
                }
            } else {
                proof {
                    assert forall|y: u64|
                        pre.take(i as int + 1).contains(y) && y != channel_id
                        implies #[trigger] kept@.contains(y) by {
                        let idx = choose|idx: int|
                            0 <= idx <= i && #[trigger] pre.take(i as int + 1)[idx] == y;
                        assert(idx < i) by {
                            if idx == i {
                                assert(pre.take(i as int + 1)[i as int] == e);
                            }
                        }
                        assert(pre.take(i as int)[idx] == y);
                        assert(pre.take(i as int).contains(y));
                    }
                    assert forall|y: u64| #[trigger] kept@.contains(y)
                        implies (pre.take(i as int + 1).contains(y) && y != channel_id) by {
                        assert(pre.take(i as int).contains(y));
                        let jdx = choose|jdx: int|
                            0 <= jdx < i && pre.take(i as int)[jdx] == y;
                        assert(pre.take(i as int + 1)[jdx] == y);
                    }
                }
            }
            i = i + 1;
        }
        proof {
            assert(pre.take(pre.len() as int) =~= pre);
        }
        self.channels = kept;
        proof {
            assert(self@ =~= old(self)@.remove(channel_id));
        }
    }

    /// Renders the full current set as the persisted file's text. Writing that
    /// text to the file is the caller's step; parsing it back yields this
    /// very set, so persistence round-trips.
    pub fn save(&self) -> (r: String)
        ensures
            r@ == render_channel_list(self.id_list()),
            parse_channel_list(r@) == Option::Some(self.id_list()),
            self.id_list().to_set() == self@,
    {
        proof {
            reveal_strlit("[");
            reveal_strlit("]");
        }
        let mut s = String::from_str("[");
        let body = render_items_exec(&self.channels, 0);
        s.append(body.as_str());
        s.append("]");
        proof {
            assert(self.channels@.skip(0) =~= self.channels@);
            assert(("[")@ =~= seq!['[']);
            assert(("]")@ =~= seq![']']);
            assert(s@ =~= render_channel_list(self.id_list()));
            lemma_channel_list_round_trip(self.id_list());
        }
        s
    }
}

/// Membership after the admin operations: adding a channel makes
/// `contains` answer true, removing it makes `contains` answer false, and
/// removing an identifier that is not in the set changes nothing.
pub proof fn lemma_channel_membership(s: Set<u64>, channel_id: u64)
    ensures
        s.insert(channel_id).contains(channel_id),
        !s.remove(channel_id).contains(channel_id),
        !s.contains(channel_id) ==> s.remove(channel_id) == s,
{
    if !s.contains(channel_id) {
        assert(s.remove(channel_id) =~= s);
    }
}

} // verus!
