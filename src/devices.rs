use vstd::prelude::*;
use vstd::string::StrSliceExecFns;
use crate::monitor::AdbMonitor;

verus! {

/// Characters with the Unicode White_Space property.
pub open spec fn is_ws(c: char) -> bool {
    let v = c as u32;
    (9 <= v <= 13) || v == 32 || v == 0x85 || v == 0xa0 || v == 0x1680 || (0x2000 <= v <= 0x200a)
        || v == 0x2028 || v == 0x2029 || v == 0x202f || v == 0x205f || v == 0x3000
}

/// The pieces of `s` between newlines, the last one included even when empty.
pub open spec fn pieces(s: Seq<char>) -> Seq<Seq<char>>
    decreases s.len(),
{
    if s.len() == 0 {
        seq![Seq::<char>::empty()]
    } else {
        let p = pieces(s.drop_last());
        if s.last() == '\n' {
            p.push(Seq::<char>::empty())
        } else {
            p.update(p.len() - 1, p.last().push(s.last()))
        }
    }
}

/// The maximal runs of non-whitespace characters of `s`, in order.
pub open spec fn words(s: Seq<char>) -> Seq<Seq<char>>
    decreases s.len(),
{
    if s.len() == 0 {
        Seq::<Seq<char>>::empty()
    } else {
        let w = words(s.drop_last());
        let c = s.last();
        if is_ws(c) {
            w
        } else if s.len() >= 2 && !is_ws(s[s.len() - 2]) {
            w.update(w.len() - 1, w.last().push(c))
        } else {
            w.push(seq![c])
        }
    }
}

pub open spec fn device_word() -> Seq<char> {
    seq!['d', 'e', 'v', 'i', 'c', 'e']
}

/// The serial that a `<serial> <state>` line names, when its state is `device`.
pub open spec fn line_device(line: Seq<char>) -> Option<Seq<char>> {
    let w = words(line);
    if w.len() >= 2 && w[1] == device_word() {
        Some(w[0])
    } else {
        None
    }
}

/// The serials of the lines whose state is `device`, in line order.
pub open spec fn serials_of_lines(lines: Seq<Seq<char>>) -> Seq<Seq<char>>
    decreases lines.len(),
{
    if lines.len() == 0 {
        Seq::<Seq<char>>::empty()
    } else {
        let rest = serials_of_lines(lines.drop_last());
        match line_device(lines.last()) {
            Some(s) => rest.push(s),
            None => rest,
        }
    }
}

/// The serials of the connected devices that a track-devices payload lists.
pub open spec fn devices_of(text: Seq<char>) -> Seq<Seq<char>> {
    serials_of_lines(pieces(text))
}

/// The serials of `cur` that `prev` does not hold, each once, in the order of
/// their first appearance in `cur`.
pub open spec fn fresh(prev: Seq<Seq<char>>, cur: Seq<Seq<char>>) -> Seq<Seq<char>>
    decreases cur.len(),
{
    if cur.len() == 0 {
        Seq::<Seq<char>>::empty()
    } else {
        let f = fresh(prev, cur.drop_last());
        if prev.contains(cur.last()) || cur.drop_last().contains(cur.last()) {
            f
        } else {
            f.push(cur.last())
        }
    }
}

/// The characters of each string.
pub open spec fn views(v: Seq<String>) -> Seq<Seq<char>> {
    v.map_values(|s: String| s@)
}

proof fn lemma_pieces_nonempty(s: Seq<char>)
    ensures
        pieces(s).len() >= 1,
    decreases s.len(),
{
    if s.len() > 0 {
        lemma_pieces_nonempty(s.drop_last());
    }
}

fn is_whitespace(c: char) -> (r: bool)
    ensures
        r == is_ws(c),
{
    let v = c as u32;
    (9 <= v && v <= 13) || v == 32 || v == 0x85 || v == 0xa0 || v == 0x1680 || (0x2000 <= v && v
        <= 0x200a) || v == 0x2028 || v == 0x2029 || v == 0x202f || v == 0x205f || v == 0x3000
}

/// The spans `[a, b)` of `chars` that are the words of `chars[lo, hi)`.
fn word_spans(chars: &Vec<char>, lo: usize, hi: usize) -> (r: Vec<(usize, usize)>)
    requires
        lo <= hi <= chars@.len(),
    ensures
        r@.len() == words(chars@.subrange(lo as int, hi as int)).len(),
        forall|k: int|
            0 <= k < r@.len() ==> lo <= (#[trigger] r@[k]).0 <= r@[k].1 <= hi && chars@.subrange(
                r@[k].0 as int,
                r@[k].1 as int,
            ) == words(chars@.subrange(lo as int, hi as int))[k],
{
    let mut done: Vec<(usize, usize)> = Vec::new();
    let mut cur_start: usize = lo;
    let mut in_word = false;
    let mut j: usize = lo;
    while j < hi
        invariant
            lo <= j <= hi <= chars@.len(),
            in_word == (j > lo && !is_ws(chars@[j - 1])),
            in_word ==> lo <= cur_start < j,
            ({
                let w = words(chars@.subrange(lo as int, j as int));
                &&& w.len() == done@.len() + (if in_word { 1int } else { 0 })
                &&& in_word ==> w.last() == chars@.subrange(cur_start as int, j as int)
                &&& forall|k: int|
                    0 <= k < done@.len() ==> lo <= (#[trigger] done@[k]).0 <= done@[k].1 <= j
                        && chars@.subrange(done@[k].0 as int, done@[k].1 as int) == w[k]
            }),
        decreases hi - j,
    {
        let c = chars[j];
        let ghost prev = chars@.subrange(lo as int, j as int);
        let ghost next = chars@.subrange(lo as int, j + 1);
        assert(next.drop_last() =~= prev);
        assert(next.last() == c);
        if is_whitespace(c) {
            if in_word {
                done.push((cur_start, j));
                in_word = false;
            }
        } else {
            if in_word {
                assert(next[next.len() - 2] == chars@[j - 1]);
                assert(chars@.subrange(cur_start as int, j as int).push(c) =~= chars@.subrange(
                    cur_start as int,
                    j + 1,
                ));
            } else {
                assert(j > lo ==> next[next.len() - 2] == chars@[j - 1]);
                cur_start = j;
                assert(seq![c] =~= chars@.subrange(j as int, j + 1));
                in_word = true;
            }
        }
        j = j + 1;
    }
    if in_word {
        done.push((cur_start, hi));
    }
    done
}

/// Whether the characters `chars[a, b)` spell `device`.
fn is_device_word(chars: &Vec<char>, a: usize, b: usize) -> (r: bool)
    requires
        a <= b <= chars@.len(),
    ensures
        r == (chars@.subrange(a as int, b as int) == device_word()),
{
    let ghost w = chars@.subrange(a as int, b as int);
    if b - a != 6 {
        assert(w.len() != device_word().len());
        return false;
    }
    let r = chars[a] == 'd' && chars[a + 1] == 'e' && chars[a + 2] == 'v' && chars[a + 3] == 'i'
        && chars[a + 4] == 'c' && chars[a + 5] == 'e';
    proof {
        let dw = device_word();
        assert(dw[0] == 'd' && dw[1] == 'e' && dw[2] == 'v' && dw[3] == 'i' && dw[4] == 'c' && dw[5]
            == 'e');
        assert(w[0] == chars@[a as int] && w[1] == chars@[a + 1] && w[2] == chars@[a + 2] && w[3]
            == chars@[a + 3] && w[4] == chars@[a + 4] && w[5] == chars@[a + 5]);
        if r {
            assert(w =~= dw);
        }
    }
    r
}

/// A serial is reported as new exactly when the current list holds it and the
/// previous one does not.
pub proof fn lemma_fresh_members(prev: Seq<Seq<char>>, cur: Seq<Seq<char>>, s: Seq<char>)
    ensures
        fresh(prev, cur).contains(s) <==> (cur.contains(s) && !prev.contains(s)),
    decreases cur.len(),
{
    if cur.len() > 0 {
        let init = cur.drop_last();
        lemma_fresh_members(prev, init, s);
        assert(cur =~= init.push(cur.last()));
        if cur.contains(s) && s != cur.last() {
            let k = choose|k: int| 0 <= k < cur.len() && cur[k] == s;
            assert(init[k] == s);
        }
        if init.contains(s) {
            let k = choose|k: int| 0 <= k < init.len() && init[k] == s;
            assert(cur[k] == s);
        }
        let f = fresh(prev, init);
        if !prev.contains(cur.last()) && !init.contains(cur.last()) {
            assert(f.push(cur.last()).last() == cur.last());
            if f.contains(s) {
                let k = choose|k: int| 0 <= k < f.len() && f[k] == s;
                assert(f.push(cur.last())[k] == s);
            }
            if f.push(cur.last()).contains(s) && s != cur.last() {
                let k = choose|k: int| 0 <= k < f.len() + 1 && f.push(cur.last())[k] == s;
                assert(f[k] == s);
            }
        }
    }
}

/// No serial is reported twice.
pub proof fn lemma_fresh_once(prev: Seq<Seq<char>>, cur: Seq<Seq<char>>)
    ensures
        fresh(prev, cur).no_duplicates(),
    decreases cur.len(),
{
    if cur.len() > 0 {
        let init = cur.drop_last();
        lemma_fresh_once(prev, init);
        let f = fresh(prev, init);
        if !prev.contains(cur.last()) && !init.contains(cur.last()) {
            lemma_fresh_members(prev, init, cur.last());
            let g = f.push(cur.last());
            assert forall|i: int, j: int| 0 <= i < g.len() && 0 <= j < g.len() && i != j implies g[i]
                != g[j] by {
                if i < f.len() && j < f.len() {
                } else if i < f.len() {
                    assert(f.contains(g[i]));
                } else {
                    assert(f.contains(g[j]));
                }
            }
        }
    }
}

/// When every current serial was known before, nothing is reported.
pub proof fn lemma_no_fresh_when_known(prev: Seq<Seq<char>>, cur: Seq<Seq<char>>)
    requires
        forall|s: Seq<char>| cur.contains(s) ==> prev.contains(s),
    ensures
        fresh(prev, cur) == Seq::<Seq<char>>::empty(),
{
    let f = fresh(prev, cur);
    if f.len() > 0 {
        lemma_fresh_members(prev, cur, f[0]);
        assert(f.contains(f[0]));
    }
    assert(f =~= Seq::<Seq<char>>::empty());
}

/// Whether `v` holds a string equal to `s`.
fn holds(v: &Vec<String>, s: &String) -> (r: bool)
    ensures
        r == views(v@).contains(s@),
{
    let mut i: usize = 0;
    while i < v.len()
        invariant
            i <= v@.len(),
            forall|k: int| 0 <= k < i ==> v@[k]@ != s@,
        decreases v@.len() - i,
    {
        if v[i] == *s {
            assert(views(v@)[i as int] == s@);
            return true;
        }
        i = i + 1;
    }
    assert forall|k: int| 0 <= k < views(v@).len() implies views(v@)[k] != s@ by {
        assert(views(v@)[k] == v@[k]@);
    }
    false
}

/// The serials of `current` that `previous` does not hold, each once, in the order
/// of their first appearance.
pub fn new_devices(previous: &Vec<String>, current: &Vec<String>) -> (r: Vec<String>)
    ensures
        views(r@) == fresh(views(previous@), views(current@)),
{
    let ghost prev = views(previous@);
    let mut r: Vec<String> = Vec::new();
    let mut i: usize = 0;
    while i < current.len()
        invariant
            i <= current@.len(),
            prev == views(previous@),
            views(r@) == fresh(prev, views(current@).take(i as int)),
        decreases current@.len() - i,
    {
        let ghost cur = views(current@).take(i + 1);
        assert(cur.drop_last() =~= views(current@).take(i as int));
        assert(cur.last() == current@[i as int]@);
        proof {
            lemma_fresh_members(prev, views(current@).take(i as int), current@[i as int]@);
        }
        if !holds(previous, &current[i]) && !holds(&r, &current[i]) {
            let s = current[i].clone();
            r.push(s);
            assert(views(r@) =~= fresh(prev, views(current@).take(i as int)).push(s@));
        }
        i = i + 1;
    }
    assert(views(current@).take(current@.len() as int) =~= views(current@));
    r
}

impl AdbMonitor {
    /// The serials of the lines of `packet` whose state is `device`, in line order.
    pub fn parse_connected_devices(&self, packet: &str) -> (r: Vec<String>)
        ensures
            views(r@) == devices_of(packet@),
    {
        let n = packet.unicode_len();
        let mut chars: Vec<char> = Vec::new();
        let mut i: usize = 0;
        while i < n
            invariant
                n == packet@.len(),
                i <= n,
                chars@ == packet@.take(i as int),
            decreases n - i,
        {
            chars.push(packet.get_char(i));
            i = i + 1;
            assert(chars@ =~= packet@.take(i as int));
        }
        assert(chars@ =~= packet@);
        let ghost t = packet@;
        let mut result: Vec<String> = Vec::new();
        let mut start: usize = 0;
        i = 0;
        assert(t.take(0) =~= Seq::<char>::empty());
        assert(pieces(t.take(0)).drop_last().push(t.subrange(0, 0)) =~= pieces(t.take(0)));
        while i < n
            invariant
                pieces(t.take(start as int)).len() >= 1,
                n == t.len(),
                chars@ == t,
                t == packet@,
                start <= i <= n,
                pieces(t.take(i as int)) == pieces(t.take(start as int)).drop_last().push(
                    t.subrange(start as int, i as int),
                ),
                views(result@) == serials_of_lines(pieces(t.take(start as int)).drop_last()),
            decreases n - i,
        {
            let ghost p = pieces(t.take(i as int));
            proof {
                lemma_pieces_nonempty(t.take(start as int));
                lemma_pieces_nonempty(t.take(i as int));
            }
            let ghost d = pieces(t.take(start as int)).drop_last();
            let ghost line = t.subrange(start as int, i as int);
            assert(d.push(line).drop_last() =~= d);
            assert(t.take(i + 1).drop_last() =~= t.take(i as int));
            assert(t.take(i + 1).last() == t[i as int]);
            if chars[i] == '\n' {
                self.push_line_device(&mut result, packet, &chars, start, i);
                assert(d.push(t.subrange(start as int, i as int)) == p);
                assert(pieces(t.take(i + 1)) == p.push(Seq::<char>::empty()));
                assert(pieces(t.take(i + 1)).drop_last() =~= p);
                start = i + 1;
                assert(t.subrange(start as int, i + 1) =~= Seq::<char>::empty());
                assert(pieces(t.take(i + 1)) =~= pieces(t.take(start as int)).drop_last().push(
                    t.subrange(start as int, i + 1),
                ));
            } else {
                assert(t.subrange(start as int, i as int).push(t[i as int]) =~= t.subrange(
                    start as int,
                    i + 1,
                ));
                assert(pieces(t.take(i + 1)) =~= d.push(t.subrange(start as int, i + 1)));
            }
            i = i + 1;
        }
        assert(t.take(n as int) =~= t);
        proof {
            lemma_pieces_nonempty(t.take(start as int));
            let d = pieces(t.take(start as int)).drop_last();
            assert(d.push(t.subrange(start as int, n as int)).drop_last() =~= d);
        }
        self.push_line_device(&mut result, packet, &chars, start, n);
        result
    }

    /// Appends the serial of the line `chars[lo, hi)`, when it names a device.
    fn push_line_device(
        &self,
        result: &mut Vec<String>,
        packet: &str,
        chars: &Vec<char>,
        lo: usize,
        hi: usize,
    )
        requires
            chars@ == packet@,
            lo <= hi <= chars@.len(),
        ensures
            views(final(result)@) == match line_device(chars@.subrange(lo as int, hi as int)) {
                Some(s) => views(old(result)@).push(s),
                None => views(old(result)@),
            },
    {
        let spans = word_spans(chars, lo, hi);
        if spans.len() >= 2 {
            let (a, b) = spans[1];
            if is_device_word(chars, a, b) {
                let (sa, sb) = spans[0];
                let serial = packet.substring_char(sa, sb).to_owned();
                result.push(serial);
                assert(views(final(result)@) =~= views(old(result)@).push(serial@));
            }
        }
    }
}

} // verus!
