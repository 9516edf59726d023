//! Symmetric instances of the travelling salesperson problem: the greedy route through the
//! cities, and the parts of an optimal-tour file that do not hold floating point.

use vstd::prelude::*;

use super::Route;

pub use super::instances::Instances;

verus! {

/// The number of cities a route through `n` cities visits: every city, and the first city even
/// where there are none.
pub open spec fn route_len(n: nat) -> nat {
    if n == 0 {
        1
    } else {
        n
    }
}

/// Step `k` of `route` is greedy: from the `k`-th city, it goes to the city closest to it
/// among those not visited yet, and to the smallest such city where several are closest.
pub open spec fn greedy_step(keys: Seq<Seq<u64>>, route: Seq<usize>, k: int) -> bool {
    let last = route[k] as int;
    let next = route[k + 1];
    forall|c: usize|
        1 <= c < keys.len() && !#[trigger] route.take(k + 1).contains(c) ==> {
            &&& keys[last][next as int] <= keys[last][c as int]
            &&& keys[last][next as int] == keys[last][c as int] ==> next <= c
        }
}

/// `route` is the greedy route through the cities whose distances `keys` orders: it starts at
/// city 0, visits every city exactly once, and every step is greedy.
pub open spec fn is_greedy_route(keys: Seq<Seq<u64>>, route: Seq<usize>) -> bool {
    &&& route.len() == route_len(keys.len())
    &&& route[0] == 0
    &&& route.no_duplicates()
    &&& forall|i: int| 0 <= i < route.len() ==> #[trigger] route[i] < route_len(keys.len())
    &&& forall|k: int| 0 <= k < route.len() - 1 ==> #[trigger] greedy_step(keys, route, k)
}

/// Whether `keys` is a square matrix: a key for every edge between its cities.
pub open spec fn is_square(keys: Seq<Seq<u64>>) -> bool {
    forall|i: int| 0 <= i < keys.len() ==> #[trigger] keys[i].len() == keys.len()
}

/// The greedy route is determined by the keys: two greedy routes through the same cities are
/// the same route.
pub proof fn law_greedy_route_unique(keys: Seq<Seq<u64>>, a: Seq<usize>, b: Seq<usize>)
    requires
        is_greedy_route(keys, a),
        is_greedy_route(keys, b),
    ensures
        a == b,
{
    let len = a.len() as int;
    assert forall|p: int| 1 <= p <= len implies #[trigger] a.take(p) == b.take(p) by {
        lemma_greedy_prefix(keys, a, b, p);
    }
    assert(a.take(len) =~= a);
    assert(b.take(len) =~= b);
}

proof fn lemma_greedy_prefix(keys: Seq<Seq<u64>>, a: Seq<usize>, b: Seq<usize>, p: int)
    requires
        is_greedy_route(keys, a),
        is_greedy_route(keys, b),
        1 <= p <= a.len(),
    ensures
        a.take(p) == b.take(p),
    decreases p,
{
    if p == 1 {
        assert(a.take(1) =~= b.take(1));
    } else {
        let k = p - 2;
        lemma_greedy_prefix(keys, a, b, p - 1);
        let x = a[k + 1];
        let y = b[k + 1];
        assert(a.take(k + 1) == b.take(k + 1));
        assert(greedy_step(keys, a, k));
        assert(greedy_step(keys, b, k));
        assert(a[k] == a.take(k + 1)[k] && b[k] == b.take(k + 1)[k]);
        assert(x != 0 && y != 0) by {
            assert(a[0] == 0 && b[0] == 0);
        }
        assert(keys.len() > 0);
        assert(!a.take(k + 1).contains(x)) by {
            if a.take(k + 1).contains(x) {
                let i = choose|i: int| 0 <= i < k + 1 && #[trigger] a.take(k + 1)[i] == x;
                assert(a[i] == a[k + 1]);
            }
        }
        assert(!b.take(k + 1).contains(y)) by {
            if b.take(k + 1).contains(y) {
                let i = choose|i: int| 0 <= i < k + 1 && #[trigger] b.take(k + 1)[i] == y;
                assert(b[i] == b[k + 1]);
            }
        }
        assert(a[k + 1] < keys.len() && b[k + 1] < keys.len());
        assert(x == y);
        assert(a.take(p) =~= a.take(k + 1).push(x));
        assert(b.take(p) =~= b.take(k + 1).push(y));
    }
}

/// A greedy route through at least one city visits every city exactly once: it is a
/// permutation of the cities.
pub proof fn law_greedy_route_is_permutation(keys: Seq<Seq<u64>>, route: Seq<usize>)
    requires
        keys.len() > 0,
        is_greedy_route(keys, route),
    ensures
        crate::problems::coco::transformations::is_permutation(route),
        route.len() == keys.len(),
{
}

/// Greedily constructs a route, always taking the shortest edge to a city not visited yet.
///
/// `keys[a][b]` orders the edge from `a` to `b` as its distance does. The route starts at
/// city 0; where several cities are closest, it takes the smallest.
pub fn greedy_route(keys: &[Vec<u64>]) -> (route: Route)
    requires
        is_square(keys@.map_values(|row: Vec<u64>| row@)),
    ensures
        is_greedy_route(keys@.map_values(|row: Vec<u64>| row@), route@),
{
    let ghost d = keys@.map_values(|row: Vec<u64>| row@);
    let n = keys.len();
    let mut route: Vec<usize> = Vec::new();
    let mut remaining: Vec<usize> = Vec::new();
    let mut c: usize = 1;
    while c < n
        invariant
            1 <= c <= n || (n == 0 && c == 1),
            remaining@.len() == c - 1,
            forall|i: int| 0 <= i < remaining@.len() ==> #[trigger] remaining@[i] == i + 1,
        decreases n - c,
    {
        remaining.push(c);
        c = c + 1;
    }
    route.push(0);
    proof {
        assert forall|x: usize| 1 <= x < n implies (remaining@.contains(x) <==> !route@.contains(x)) by {
            if 1 <= x < n {
                assert(remaining@[x - 1] == x);
            }
        }
    }
    while remaining.len() > 0
        invariant
            d == keys@.map_values(|row: Vec<u64>| row@),
            d.len() == n,
            is_square(d),
            route@.len() >= 1,
            route@[0] == 0,
            route@.no_duplicates(),
            forall|i: int| 0 <= i < route@.len() ==> #[trigger] route@[i] < route_len(n as nat),
            forall|i: int, j: int|
                0 <= i < j < remaining@.len() ==> #[trigger] remaining@[i] < #[trigger] remaining@[j],
            forall|i: int|
                0 <= i < remaining@.len() ==> 1 <= #[trigger] remaining@[i] && remaining@[i] < n,
            forall|x: usize| 1 <= x < n ==> (remaining@.contains(x) <==> !route@.contains(x)),
            route@.len() + remaining@.len() == route_len(n as nat),
            forall|k: int| 0 <= k < route@.len() - 1 ==> #[trigger] greedy_step(d, route@, k),
        decreases remaining@.len(),
    {
        let last = route[route.len() - 1];
        proof {
            assert(route@[route@.len() - 1] < n);
        }
        let row = &keys[last];
        let mut best: usize = 0;
        let mut j: usize = 1;
        while j < remaining.len()
            invariant
                d == keys@.map_values(|row: Vec<u64>| row@),
                is_square(d),
                d.len() == n,
                last < n,
                row@ == d[last as int],
                0 <= best < j <= remaining@.len(),
                forall|i: int|
                    0 <= i < remaining@.len() ==> 1 <= #[trigger] remaining@[i] && remaining@[i] < n,
                forall|i: int|
                    0 <= i < j ==> row@[remaining@[best as int] as int] <= row@[#[trigger] remaining@[i] as int],
                forall|i: int|
                    0 <= i < best ==> row@[remaining@[best as int] as int] < row@[#[trigger] remaining@[i] as int],
            decreases remaining@.len() - j,
        {
            assert(d[last as int].len() == n);
            if row[remaining[j]] < row[remaining[best]] {
                best = j;
            }
            j = j + 1;
        }
        let ghost old_route = route@;
        let ghost old_remaining = remaining@;
        let next = remaining.remove(best);
        route.push(next);
        proof {
            let k = old_route.len() - 1;
            assert(route@.take(k + 1) =~= old_route);
            assert(route@[k] == last && route@[k + 1] == next);
            assert forall|x: usize| 1 <= x < d.len() && !#[trigger] route@.take(k + 1).contains(x) implies {
                &&& d[last as int][next as int] <= d[last as int][x as int]
                &&& d[last as int][next as int] == d[last as int][x as int] ==> next <= x
            } by {
                assert(old_remaining.contains(x));
                let i = choose|i: int| 0 <= i < old_remaining.len() && old_remaining[i] == x;
                if i < best {
                    assert(old_remaining[i] < old_remaining[best as int]);
                } else if i > best {
                    assert(old_remaining[best as int] < old_remaining[i]);
                }
            }
            assert forall|kk: int| 0 <= kk < route@.len() - 1 implies #[trigger] greedy_step(d, route@, kk) by {
                if kk < k {
                    assert(greedy_step(d, old_route, kk));
                    assert(route@.take(kk + 1) =~= old_route.take(kk + 1));
                    assert(route@[kk] == old_route[kk] && route@[kk + 1] == old_route[kk + 1]);
                }
            }
            assert(!old_route.contains(next));
            assert forall|a: int, b: int| 0 <= a < route@.len() && 0 <= b < route@.len() && a != b implies route@[a]
                != route@[b] by {
                if a == k + 1 {
                    assert(old_route[b] != next);
                } else if b == k + 1 {
                    assert(old_route[a] != next);
                }
            }
            assert forall|x: usize| 1 <= x < n implies (remaining@.contains(x) <==> !route@.contains(x)) by {
                if remaining@.contains(x) {
                    let i = choose|i: int| 0 <= i < remaining@.len() && remaining@[i] == x;
                    if i < best {
                        assert(old_remaining[i] == x);
                        assert(old_remaining[i] < old_remaining[best as int]);
                        assert(old_remaining.contains(x));
                    } else {
                        assert(old_remaining[i + 1] == x);
                        assert(old_remaining[best as int] < old_remaining[i + 1]);
                        assert(old_remaining.contains(x));
                    }
                    assert(x != next);
                    assert(!old_route.contains(x));
                    if route@.contains(x) {
                        let r = choose|r: int| 0 <= r < route@.len() && route@[r] == x;
                        if r < old_route.len() {
                            assert(old_route[r] == x);
                        }
                    }
                }
                if !route@.contains(x) {
                    assert(!old_route.contains(x)) by {
                        if old_route.contains(x) {
                            let r = choose|r: int| 0 <= r < old_route.len() && old_route[r] == x;
                            assert(route@[r] == x);
                        }
                    }
                    let i = choose|i: int| 0 <= i < old_remaining.len() && old_remaining[i] == x;
                    assert(x != next) by {
                        assert(route@[k + 1] == next);
                    }
                    if i < best {
                        assert(remaining@[i] == x);
                    } else {
                        assert(i != best);
                        assert(remaining@[i - 1] == x);
                    }
                }
            }
        }
    }
    route
}

} // verus!

verus! {

/// `line` without one carriage return (`\r`) at its end.
pub open spec fn strip_cr(line: Seq<u8>) -> Seq<u8> {
    if line.len() > 0 && line.last() == 13u8 {
        line.drop_last()
    } else {
        line
    }
}

/// The lines of `text` after the partial line `current`, split as `str::lines` splits: at
/// each line feed (`\n`), which ends a line together with a carriage return (`\r`) right
/// before it; the final line ending is optional.
pub open spec fn split_lines(text: Seq<u8>, current: Seq<u8>) -> Seq<Seq<u8>>
    decreases text.len(),
{
    if text.len() == 0 {
        if current.len() == 0 {
            Seq::empty()
        } else {
            seq![current]
        }
    } else if text[0] == 10u8 {
        seq![strip_cr(current)] + split_lines(text.drop_first(), Seq::empty())
    } else {
        split_lines(text.drop_first(), current.push(text[0]))
    }
}

/// The lines of `text`.
pub open spec fn lines_of(text: Seq<u8>) -> Seq<Seq<u8>> {
    split_lines(text, Seq::empty())
}

/// Splits `text` into lines, as `str::lines` does.
pub fn lines(text: &[u8]) -> (r: Vec<Vec<u8>>)
    ensures
        r@.map_values(|l: Vec<u8>| l@) == lines_of(text@),
{
    let mut r: Vec<Vec<u8>> = Vec::new();
    let mut current: Vec<u8> = Vec::new();
    let mut i: usize = 0;
    proof {
        assert(text@.skip(0) =~= text@);
        assert(r@.map_values(|l: Vec<u8>| l@) =~= Seq::<Seq<u8>>::empty());
        assert(current@ =~= Seq::<u8>::empty());
        assert(Seq::<Seq<u8>>::empty() + lines_of(text@) =~= lines_of(text@));
    }
    while i < text.len()
        invariant
            i <= text.len(),
            r@.map_values(|l: Vec<u8>| l@) + split_lines(text@.skip(i as int), current@)
                == lines_of(text@),
        decreases text.len() - i,
    {
        let ghost rest = text@.skip(i as int);
        assert(rest[0] == text@[i as int]);
        assert(rest.drop_first() =~= text@.skip(i + 1));
        let b = text[i];
        if b == 10u8 {
            let n = current.len();
            if n > 0 && current[n - 1] == 13u8 {
                current.pop();
            }
            let ghost line = current@;
            let ghost before = r@.map_values(|l: Vec<u8>| l@);
            r.push(current);
            current = Vec::new();
            proof {
                assert(r@.map_values(|l: Vec<u8>| l@) =~= before.push(line));
                assert(before.push(line) + split_lines(text@.skip(i + 1), Seq::empty()) =~= before
                    + (seq![line] + split_lines(text@.skip(i + 1), Seq::empty())));
            }
        } else {
            current.push(b);
        }
        i = i + 1;
    }
    if current.len() > 0 {
        let ghost before = r@.map_values(|l: Vec<u8>| l@);
        let ghost line = current@;
        r.push(current);
        proof {
            assert(r@.map_values(|l: Vec<u8>| l@) =~= before.push(line));
            assert(text@.skip(i as int) =~= Seq::<u8>::empty());
            assert(before + seq![line] =~= before.push(line));
        }
    } else {
        proof {
            assert(text@.skip(i as int) =~= Seq::<u8>::empty());
            assert(r@.map_values(|l: Vec<u8>| l@) + Seq::<Seq<u8>>::empty() =~= r@.map_values(
                |l: Vec<u8>| l@,
            ));
        }
    }
    r
}

/// The line that opens the tour of an optimal-tour file.
pub open spec fn tour_marker() -> Seq<u8> {
    seq![84u8, 79, 85, 82, 95, 83, 69, 67, 84, 73, 79, 78]
}

/// The line that closes the tour of an optimal-tour file.
pub open spec fn end_marker() -> Seq<u8> {
    seq![45u8, 49]
}

/// The start of the line that gives the best objective value of an optimal-tour file.
pub open spec fn best_marker() -> Seq<u8> {
    seq![66u8, 69, 83, 84, 95, 83, 79, 76, 85, 84, 73, 79, 78]
}

/// The lines after the first tour marker, or none if there is no tour marker.
pub open spec fn after_tour_marker(ls: Seq<Seq<u8>>) -> Seq<Seq<u8>>
    decreases ls.len(),
{
    if ls.len() == 0 {
        ls
    } else if ls[0] == tour_marker() {
        ls.drop_first()
    } else {
        after_tour_marker(ls.drop_first())
    }
}

/// The lines before the first end marker.
pub open spec fn before_end_marker(ls: Seq<Seq<u8>>) -> Seq<Seq<u8>>
    decreases ls.len(),
{
    if ls.len() == 0 || ls[0] == end_marker() {
        Seq::empty()
    } else {
        seq![ls[0]] + before_end_marker(ls.drop_first())
    }
}

/// The lines of the tour: those between the tour marker and the end marker.
pub open spec fn tour_lines(ls: Seq<Seq<u8>>) -> Seq<Seq<u8>> {
    before_end_marker(after_tour_marker(ls))
}

/// Whether every byte of `s` is an ASCII digit.
pub open spec fn all_digits(s: Seq<u8>) -> bool {
    forall|i: int| 0 <= i < s.len() ==> 48 <= #[trigger] s[i] <= 57
}

/// The number that the ASCII digits `s` write in decimal.
pub open spec fn digits_value(s: Seq<u8>) -> nat
    decreases s.len(),
{
    if s.len() == 0 {
        0
    } else {
        digits_value(s.drop_last()) * 10 + (s.last() - 48) as nat
    }
}

/// The digits of the unsigned number `s`: `s` without a leading `+`.
pub open spec fn unsigned_digits(s: Seq<u8>) -> Seq<u8> {
    if s.len() > 0 && s[0] == 43u8 {
        s.drop_first()
    } else {
        s
    }
}

/// Whether `s` is the text of a `usize`, as `str::parse::<usize>` reads it: an optional `+`
/// followed by at least one decimal digit, of a value that fits.
pub open spec fn is_usize_text(s: Seq<u8>) -> bool {
    let d = unsigned_digits(s);
    &&& d.len() > 0
    &&& all_digits(d)
    &&& digits_value(d) <= usize::MAX
}

/// The value of the `usize` text `s`.
pub open spec fn usize_value(s: Seq<u8>) -> nat {
    digits_value(unsigned_digits(s))
}

proof fn lemma_digits_value_monotone(s: Seq<u8>, i: int, j: int)
    requires
        0 <= i <= j <= s.len(),
        all_digits(s),
    ensures
        digits_value(s.take(i)) <= digits_value(s.take(j)),
    decreases j - i,
{
    if i < j {
        lemma_digits_value_monotone(s, i, j - 1);
        assert(s.take(j).drop_last() =~= s.take(j - 1));
        assert(s.take(j).last() == s[j - 1]);
    }
}

/// Parses the `usize` text `s`.
pub fn parse_usize(s: &[u8]) -> (r: usize)
    requires
        is_usize_text(s@),
    ensures
        r == usize_value(s@),
{
    let start: usize = if s.len() > 0 && s[0] == 43u8 {
        1
    } else {
        0
    };
    let ghost d = unsigned_digits(s@);
    assert(d =~= s@.skip(start as int));
    let mut v: usize = 0;
    let mut i: usize = start;
    while i < s.len()
        invariant
            start <= i <= s.len(),
            d == s@.skip(start as int),
            all_digits(d),
            digits_value(d) <= usize::MAX,
            v == digits_value(d.take(i - start)),
        decreases s.len() - i,
    {
        let k = i - start;
        proof {
            lemma_digits_value_monotone(d, k + 1, d.len() as int);
            assert(d.take(d.len() as int) =~= d);
            assert(d.take(k + 1).drop_last() =~= d.take(k as int));
            assert(d.take(k + 1).last() == s@[i as int]);
            assert(d[k as int] == s@[i as int]);
        }
        v = v * 10 + (s[i] - 48) as usize;
        i = i + 1;
    }
    proof {
        assert(d.take(i - start) =~= d);
    }
    v
}

/// The numbers of the tour that an optimal-tour file lists, each one less than written: the
/// file numbers cities from 1, routes from 0.
pub open spec fn tour_of(ls: Seq<Seq<u8>>) -> Seq<usize> {
    tour_lines(ls).map_values(|l: Seq<u8>| (usize_value(l) - 1) as usize)
}

/// Whether every line of the tour is the text of a `usize` of at least 1.
pub open spec fn tour_is_readable(ls: Seq<Seq<u8>>) -> bool {
    forall|i: int|
        0 <= i < tour_lines(ls).len() ==> is_usize_text(#[trigger] tour_lines(ls)[i])
            && usize_value(tour_lines(ls)[i]) >= 1
}

/// Reads the tour of the lines `ls` of an optimal-tour file.
pub fn read_tour(ls: &Vec<Vec<u8>>) -> (r: Route)
    requires
        tour_is_readable(ls@.map_values(|l: Vec<u8>| l@)),
    ensures
        r@ == tour_of(ls@.map_values(|l: Vec<u8>| l@)),
{
    let ghost v = ls@.map_values(|l: Vec<u8>| l@);
    let tour: Vec<u8> = vec![84u8, 79, 85, 82, 95, 83, 69, 67, 84, 73, 79, 78];
    let end: Vec<u8> = vec![45u8, 49];
    assert(tour@ =~= tour_marker());
    assert(end@ =~= end_marker());
    let n = ls.len();
    let mut i: usize = 0;
    assert(v.skip(0) =~= v);
    while i < n && !eq_bytes(ls[i].as_slice(), tour.as_slice())
        invariant
            tour@ == tour_marker(),
            i <= n,
            n == v.len(),
            v == ls@.map_values(|l: Vec<u8>| l@),
            after_tour_marker(v.skip(i as int)) == after_tour_marker(v),
        decreases n - i,
    {
        proof {
            assert(v.skip(i as int).drop_first() =~= v.skip(i + 1));
        }
        i = i + 1;
    }
    if i < n {
        proof {
            assert(v.skip(i as int).drop_first() =~= v.skip(i + 1));
        }
        i = i + 1;
    } else {
        proof {
            assert(v.skip(i as int) =~= Seq::<Seq<u8>>::empty());
        }
    }
    let ghost tail = after_tour_marker(v);
    assert(tail == v.skip(i as int));
    let mut route: Vec<usize> = Vec::new();
    let mut j: usize = i;
    while j < n && !eq_bytes(ls[j].as_slice(), end.as_slice())
        invariant
            end@ == end_marker(),
            i <= j <= n,
            n == v.len(),
            v == ls@.map_values(|l: Vec<u8>| l@),
            tail == v.skip(i as int),
            tour_is_readable(v),
            tour_lines(v) == before_end_marker(tail),
            before_end_marker(tail) == v.subrange(i as int, j as int) + before_end_marker(
                v.skip(j as int),
            ),
            route@ == v.subrange(i as int, j as int).map_values(
                |l: Seq<u8>| (usize_value(l) - 1) as usize,
            ),
        decreases n - j,
    {
        let ghost rest = v.skip(j as int);
        proof {
            assert(rest[0] == v[j as int]);
            assert(rest.drop_first() =~= v.skip(j + 1));
            assert(v.subrange(i as int, j + 1) =~= v.subrange(i as int, j as int).push(v[j as int]));
            assert(v.subrange(i as int, j as int) + (seq![v[j as int]] + before_end_marker(
                v.skip(j + 1),
            )) =~= v.subrange(i as int, j + 1) + before_end_marker(v.skip(j + 1)));
            let k = j - i;
            assert(tour_lines(v)[k] == v[j as int]);
        }
        let x = parse_usize(ls[j].as_slice());
        route.push(x - 1);
        proof {
            assert(route@ =~= v.subrange(i as int, j + 1).map_values(
                |l: Seq<u8>| (usize_value(l) - 1) as usize,
            ));
        }
        j = j + 1;
    }
    proof {
        if j < n {
            assert(v.skip(j as int)[0] == v[j as int]);
        } else {
            assert(v.skip(j as int) =~= Seq::<Seq<u8>>::empty());
        }
        assert(before_end_marker(v.skip(j as int)) =~= Seq::<Seq<u8>>::empty());
        assert(tour_lines(v) =~= v.subrange(i as int, j as int));
    }
    route
}

/// Whether the bytes `a` and `b` are equal.
pub fn eq_bytes(a: &[u8], b: &[u8]) -> (r: bool)
    ensures
        r == (a@ == b@),
{
    if a.len() != b.len() {
        return false;
    }
    let mut i: usize = 0;
    while i < a.len()
        invariant
            a.len() == b.len(),
            i <= a.len(),
            forall|k: int| 0 <= k < i ==> a@[k] == b@[k],
        decreases a.len() - i,
    {
        if a[i] != b[i] {
            return false;
        }
        i = i + 1;
    }
    proof {
        assert(a@ =~= b@);
    }
    true
}

/// Whether `line` starts with the best-value marker.
pub open spec fn is_best_line(line: Seq<u8>) -> bool {
    line.len() >= 13 && line.take(13) == best_marker()
}

/// The first line that starts with the best-value marker, if any.
pub open spec fn best_line(ls: Seq<Seq<u8>>) -> Option<Seq<u8>>
    decreases ls.len(),
{
    if ls.len() == 0 {
        None
    } else if is_best_line(ls[0]) {
        Some(ls[0])
    } else {
        best_line(ls.drop_first())
    }
}

/// Whether the best-value line, if any, holds a value after its marker and the separator
/// `": "`, which starts at a character boundary.
pub open spec fn best_is_readable(ls: Seq<Seq<u8>>) -> bool {
    best_line(ls) matches Some(l) ==> l.len() >= 15 && (l.len() == 15 || !(128 <= l[15] < 192))
}

/// The text of the best objective value: the best-value line after its marker and the
/// separator `": "`.
pub open spec fn best_text(ls: Seq<Seq<u8>>) -> Option<Seq<u8>> {
    match best_line(ls) {
        Some(l) => Some(l.skip(15)),
        None => None,
    }
}

/// Whether `line` starts with the best-value marker.
fn starts_with_best(line: &[u8]) -> (r: bool)
    ensures
        r == is_best_line(line@),
{
    let marker: Vec<u8> = vec![66u8, 69, 83, 84, 95, 83, 79, 76, 85, 84, 73, 79, 78];
    assert(marker@ =~= best_marker());
    if line.len() < 13 {
        return false;
    }
    let mut i: usize = 0;
    while i < 13
        invariant
            line.len() >= 13,
            marker@ == best_marker(),
            i <= 13,
            forall|k: int| 0 <= k < i ==> line@[k] == marker@[k],
        decreases 13 - i,
    {
        if line[i] != marker[i] {
            assert(line@.take(13)[i as int] != best_marker()[i as int]);
            return false;
        }
        i = i + 1;
    }
    assert(line@.take(13) =~= best_marker());
    true
}

/// Reads the text of the best objective value from the lines `ls` of an optimal-tour file.
pub fn read_best_text(ls: &Vec<Vec<u8>>) -> (r: Option<Vec<u8>>)
    requires
        best_is_readable(ls@.map_values(|l: Vec<u8>| l@)),
    ensures
        r matches Some(t) ==> best_text(ls@.map_values(|l: Vec<u8>| l@)) == Some(t@),
        r is None ==> best_text(ls@.map_values(|l: Vec<u8>| l@)) is None,
{
    let ghost v = ls@.map_values(|l: Vec<u8>| l@);
    let n = ls.len();
    let mut i: usize = 0;
    assert(v.skip(0) =~= v);
    while i < n && !starts_with_best(ls[i].as_slice())
        invariant
            i <= n,
            n == v.len(),
            v == ls@.map_values(|l: Vec<u8>| l@),
            best_line(v.skip(i as int)) == best_line(v),
        decreases n - i,
    {
        proof {
            assert(v.skip(i as int).drop_first() =~= v.skip(i + 1));
        }
        i = i + 1;
    }
    if i == n {
        proof {
            assert(v.skip(i as int) =~= Seq::<Seq<u8>>::empty());
        }
        return None;
    }
    proof {
        assert(v.skip(i as int)[0] == v[i as int]);
    }
    let line = &ls[i];
    let mut text: Vec<u8> = Vec::new();
    let mut k: usize = 15;
    while k < line.len()
        invariant
            15 <= k <= line.len(),
            text@ == line@.subrange(15, k as int),
        decreases line.len() - k,
    {
        text.push(line[k]);
        proof {
            assert(text@ =~= line@.subrange(15, k + 1));
        }
        k = k + 1;
    }
    proof {
        assert(text@ =~= line@.skip(15));
    }
    Some(text)
}

/// What an optimal-tour file gives: the text of the best objective value, and the optimal
/// route (numbered from 0), each where the file has it.
pub struct OptFile {
    pub best_solution: Option<Vec<u8>>,
    pub solution: Option<Route>,
}

/// Reads an optimal-tour file (in the TSPLIB format): the text of its best objective value,
/// and its tour, numbered from 0.
///
/// The file must have at least one of them; the objective value of the tour, where the file
/// gives none, is left to the caller, who holds the distances.
pub fn parse_opt_file(opt_contents: &[u8]) -> (r: OptFile)
    requires
        tour_is_readable(lines_of(opt_contents@)),
        best_is_readable(lines_of(opt_contents@)),
        best_line(lines_of(opt_contents@)) is Some || tour_lines(lines_of(opt_contents@)).len() > 0,
    ensures
        match r.best_solution {
            Some(t) => best_text(lines_of(opt_contents@)) == Some(t@),
            None => best_text(lines_of(opt_contents@)) is None,
        },
        match r.solution {
            Some(route) => route@ == tour_of(lines_of(opt_contents@)) && route@.len() > 0,
            None => tour_lines(lines_of(opt_contents@)).len() == 0,
        },
{
    let ls = lines(opt_contents);
    let best_solution = read_best_text(&ls);
    let route = read_tour(&ls);
    let solution = if route.len() == 0 {
        None
    } else {
        Some(route)
    };
    OptFile { best_solution, solution }
}

} // verus!
