use vstd::prelude::*;

verus! {

/// One delivery request: how many kids each home has, the parallel list of
/// gift weights, and the sleigh's weight capacity.
#[derive(Debug)]
pub struct Input {
    pub kids: Vec<i32>,
    pub weight: Vec<i32>,
    pub capacity: i32,
}

/// One home worth visiting: the kids it holds and the weight of its gifts.
#[derive(Clone, Copy, PartialEq, Eq, Structural, Debug)]
pub struct Home {
    pub kids: i32,
    pub weight: i32,
}

/// The number of kids that get their gifts.
#[derive(Clone, Copy, PartialEq, Eq, Structural, Debug)]
pub struct Output {
    pub kids: i32,
}

/// A home the planner works with: somebody lives there, and its gifts do not
/// weigh a negative amount.
pub open spec fn home_ok(h: Home) -> bool {
    h.kids > 0 && h.weight >= 0
}

pub open spec fn all_homes_ok(s: Seq<Home>) -> bool {
    forall|i: int| 0 <= i < s.len() ==> home_ok(#[trigger] s[i])
}

/// Gift weight per kid, as integer division computes it.
pub open spec fn spec_ratio(h: Home) -> int {
    h.weight as int / h.kids as int
}

/// The homes with at least one kid among the first `n` entries of the two
/// parallel lists, in list order.
pub open spec fn spec_homes_prefix(kids: Seq<i32>, weight: Seq<i32>, n: int) -> Seq<Home>
    decreases n,
{
    if n <= 0 {
        Seq::empty()
    } else {
        let rest = spec_homes_prefix(kids, weight, n - 1);
        if kids[n - 1] > 0 {
            rest.push(Home { kids: kids[n - 1], weight: weight[n - 1] })
        } else {
            rest
        }
    }
}

pub open spec fn spec_homes(kids: Seq<i32>, weight: Seq<i32>) -> Seq<Home> {
    spec_homes_prefix(kids, weight, kids.len() as int)
}

/// Inserts `h` behind every home whose ratio is at most `h`'s, so repeated
/// insertion is a stable sort.
pub open spec fn spec_insert_home(s: Seq<Home>, h: Home) -> Seq<Home>
    decreases s.len(),
{
    if s.len() == 0 {
        seq![h]
    } else if spec_ratio(s.last()) <= spec_ratio(h) {
        s.push(h)
    } else {
        spec_insert_home(s.drop_last(), h).push(s.last())
    }
}

/// The homes ordered by gift weight per kid, cheapest first; ties keep their
/// list order.
pub open spec fn spec_sort_homes(s: Seq<Home>) -> Seq<Home>
    decreases s.len(),
{
    if s.len() == 0 {
        Seq::empty()
    } else {
        spec_insert_home(spec_sort_homes(s.drop_last()), s.last())
    }
}

/// Walks the homes in order, serving each whose gifts still fit; yields the
/// kids served and the capacity left over.
pub open spec fn spec_greedy(s: Seq<Home>, capacity: int) -> (int, int)
    decreases s.len(),
{
    if s.len() == 0 {
        (0int, capacity)
    } else if capacity >= s.first().weight {
        let rest = spec_greedy(s.drop_first(), capacity - s.first().weight);
        (rest.0 + s.first().kids, rest.1)
    } else {
        spec_greedy(s.drop_first(), capacity)
    }
}

/// The kids in all listed homes combined.
pub open spec fn spec_home_kids_sum(s: Seq<Home>) -> int
    decreases s.len(),
{
    if s.len() == 0 {
        0
    } else {
        spec_home_kids_sum(s.drop_last()) + s.last().kids as int
    }
}

/// The kids in every home of the request that has any, combined.
pub open spec fn spec_kids_total(kids: Seq<i32>) -> int
    decreases kids.len(),
{
    if kids.len() == 0 {
        0
    } else {
        spec_kids_total(kids.drop_last()) + (if kids.last() > 0 {
            kids.last() as int
        } else {
            0int
        })
    }
}

proof fn lemma_sum_first(s: Seq<Home>)
    requires
        s.len() > 0,
    ensures
        spec_home_kids_sum(s) == s.first().kids as int + spec_home_kids_sum(s.drop_first()),
    decreases s.len(),
{
    if s.len() == 1 {
        assert(s.drop_first() =~= Seq::<Home>::empty());
        assert(s.drop_last() =~= Seq::<Home>::empty());
    } else {
        lemma_sum_first(s.drop_last());
        assert(s.drop_last().drop_first() =~= s.drop_first().drop_last());
        assert(s.drop_last().first() == s.first());
        assert(s.drop_first().last() == s.last());
    }
}

proof fn lemma_insert_sum(s: Seq<Home>, h: Home)
    ensures
        spec_home_kids_sum(spec_insert_home(s, h)) == spec_home_kids_sum(s) + h.kids as int,
        spec_insert_home(s, h).len() == s.len() + 1,
    decreases s.len(),
{
    if s.len() == 0 {
        assert(spec_insert_home(s, h) == seq![h]);
        assert(seq![h].drop_last() =~= Seq::<Home>::empty());
        assert(seq![h].last() == h);
        assert(spec_home_kids_sum(seq![h]) == spec_home_kids_sum(Seq::<Home>::empty())
            + h.kids as int);
        assert(spec_home_kids_sum(s) == 0);
    } else if spec_ratio(s.last()) <= spec_ratio(h) {
        assert(spec_insert_home(s, h) == s.push(h));
        assert(s.push(h).drop_last() =~= s);
        assert(s.push(h).last() == h);
        assert(spec_home_kids_sum(s.push(h)) == spec_home_kids_sum(s) + h.kids as int);
    } else {
        lemma_insert_sum(s.drop_last(), h);
        assert(spec_insert_home(s.drop_last(), h).push(s.last()).drop_last() =~= spec_insert_home(
            s.drop_last(),
            h,
        ));
    }
}

proof fn lemma_sort_sum(s: Seq<Home>)
    ensures
        spec_home_kids_sum(spec_sort_homes(s)) == spec_home_kids_sum(s),
        spec_sort_homes(s).len() == s.len(),
    decreases s.len(),
{
    if s.len() > 0 {
        lemma_sort_sum(s.drop_last());
        lemma_insert_sum(spec_sort_homes(s.drop_last()), s.last());
    }
}

proof fn lemma_insert_ok(s: Seq<Home>, h: Home)
    requires
        all_homes_ok(s),
        home_ok(h),
    ensures
        all_homes_ok(spec_insert_home(s, h)),
    decreases s.len(),
{
    if s.len() == 0 {
    } else if spec_ratio(s.last()) <= spec_ratio(h) {
    } else {
        assert(all_homes_ok(s.drop_last()));
        lemma_insert_ok(s.drop_last(), h);
    }
}

proof fn lemma_sort_ok(s: Seq<Home>)
    requires
        all_homes_ok(s),
    ensures
        all_homes_ok(spec_sort_homes(s)),
    decreases s.len(),
{
    if s.len() > 0 {
        assert(all_homes_ok(s.drop_last()));
        lemma_sort_ok(s.drop_last());
        lemma_insert_ok(spec_sort_homes(s.drop_last()), s.last());
        assert(home_ok(s.last()));
    }
}

proof fn lemma_greedy_bounds(s: Seq<Home>, capacity: int)
    requires
        all_homes_ok(s),
    ensures
        0 <= spec_greedy(s, capacity).0 <= spec_home_kids_sum(s),
    decreases s.len(),
{
    if s.len() > 0 {
        assert(all_homes_ok(s.drop_first()));
        lemma_sum_first(s);
        assert(home_ok(s.first()));
        if capacity >= s.first().weight {
            lemma_greedy_bounds(s.drop_first(), capacity - s.first().weight);
        } else {
            lemma_greedy_bounds(s.drop_first(), capacity);
        }
    }
}

fn ratio(h: &Home) -> (r: u32)
    requires
        home_ok(*h),
    ensures
        r as int == spec_ratio(*h),
{
    (h.weight as u32) / (h.kids as u32)
}

/// Insertion sort by ratio, matching the stable-sort specification exactly.
fn sort_homes(homes: &Vec<Home>) -> (r: Vec<Home>)
    requires
        all_homes_ok(homes@),
    ensures
        r@ == spec_sort_homes(homes@),
{
    let mut r: Vec<Home> = Vec::new();
    let mut i: usize = 0;
    while i < homes.len()
        invariant
            i <= homes@.len(),
            all_homes_ok(homes@),
            all_homes_ok(r@),
            r@ == spec_sort_homes(homes@.take(i as int)),
        decreases homes@.len() - i,
    {
        let h = homes[i];
        let ghost prev = r@;
        let mut j: usize = r.len();
        while j > 0 && ratio(&r[j - 1]) > ratio(&h)
            invariant
                j <= r@.len(),
                r@ == prev,
                all_homes_ok(r@),
                home_ok(h),
                forall|k: int| j <= k < r@.len() ==> spec_ratio(#[trigger] r@[k]) > spec_ratio(h),
            decreases j,
        {
            j = j - 1;
        }
        proof {
            lemma_insert_prefix(prev, h, j as int);
            assert(homes@.take(i + 1int).drop_last() =~= homes@.take(i as int));
            assert(homes@.take(i + 1int).last() == homes@[i as int]);
        }
        r.insert(j, h);
        proof {
            assert(r@ =~= prev.take(j as int).push(h) + prev.skip(j as int));
            lemma_insert_ok(prev, h);
            assert(r@ == spec_insert_home(prev, h));
        }
        i = i + 1;
    }
    proof {
        assert(homes@.take(homes@.len() as int) =~= homes@);
    }
    r
}

/// Inserting `h` into a sequence whose tail beyond `j` is all strictly more
/// expensive than `h`, where position `j` is not, lands `h` exactly at `j`.
proof fn lemma_insert_prefix(s: Seq<Home>, h: Home, j: int)
    requires
        0 <= j <= s.len(),
        forall|k: int| j <= k < s.len() ==> spec_ratio(#[trigger] s[k]) > spec_ratio(h),
        j > 0 ==> spec_ratio(s[j - 1]) <= spec_ratio(h),
    ensures
        spec_insert_home(s, h) == s.take(j).push(h) + s.skip(j),
    decreases s.len() - j,
{
    if j == s.len() {
        if s.len() == 0 {
            assert(spec_insert_home(s, h) =~= s.take(j).push(h) + s.skip(j));
        } else {
            assert(s.take(j) =~= s);
            assert(spec_insert_home(s, h) == s.push(h));
            assert(s.push(h) =~= s.take(j).push(h) + s.skip(j));
        }
    } else {
        assert(spec_ratio(s.last()) > spec_ratio(h));
        assert(spec_insert_home(s, h) == spec_insert_home(s.drop_last(), h).push(s.last()));
        assert(forall|k: int|
            j <= k < s.drop_last().len() ==> spec_ratio(#[trigger] s.drop_last()[k]) > spec_ratio(
                h,
            ));
        if j > 0 {
            assert(s.drop_last()[j - 1] == s[j - 1]);
        }
        lemma_insert_prefix(s.drop_last(), h, j);
        assert(spec_insert_home(s.drop_last(), h).push(s.last()) =~= s.take(j).push(h) + s.skip(
            j,
        )) by {
            assert(s.drop_last().take(j) =~= s.take(j));
            assert(s.drop_last().skip(j).push(s.last()) =~= s.skip(j));
        }
    }
}

/// Pairs the two parallel lists into the homes that have kids, sorts them by
/// gift weight per kid (stable), and serves homes greedily in that order
/// while their gifts fit the remaining capacity; returns the number of kids
/// served. The exact greedy result over the stably sorted homes is pinned by
/// the specification functions.
pub fn allocate_kids(input: &Input) -> (r: Output)
    requires
        input.kids@.len() <= input.weight@.len(),
        forall|i: int| 0 <= i < input.kids@.len() ==> #[trigger] input.weight@[i] >= 0,
        spec_kids_total(input.kids@) <= i32::MAX,
    ensures
        r.kids as int == spec_greedy(
            spec_sort_homes(spec_homes(input.kids@, input.weight@)),
            input.capacity as int,
        ).0,
{
    let mut homes: Vec<Home> = Vec::new();
    let mut i: usize = 0;
    while i < input.kids.len()
        invariant
            i <= input.kids@.len(),
            input.kids@.len() <= input.weight@.len(),
            forall|k: int| 0 <= k < input.kids@.len() ==> #[trigger] input.weight@[k] >= 0,
            homes@ == spec_homes_prefix(input.kids@, input.weight@, i as int),
            all_homes_ok(homes@),
        decreases input.kids@.len() - i,
    {
        let k = input.kids[i];
        if k > 0 {
            homes.push(Home { kids: k, weight: input.weight[i] });
        }
        i = i + 1;
    }
    proof {
        lemma_kids_total_of_homes(input.kids@, input.weight@, input.kids@.len() as int);
        assert(input.kids@.take(input.kids@.len() as int) =~= input.kids@);
        lemma_sort_sum(homes@);
        lemma_sort_ok(homes@);
        lemma_greedy_bounds(spec_sort_homes(homes@), input.capacity as int);
    }
    let sorted = sort_homes(&homes);
    let ghost target = spec_greedy(spec_sort_homes(homes@), input.capacity as int);
    proof {
        assert(sorted@.skip(0) =~= sorted@);
    }
    let mut kid_numbers: i32 = 0;
    let mut capacity: i32 = input.capacity;
    let mut j: usize = 0;
    while j < sorted.len()
        invariant
            j <= sorted@.len(),
            sorted@ == spec_sort_homes(homes@),
            all_homes_ok(sorted@),
            0 <= kid_numbers,
            target == spec_greedy(spec_sort_homes(homes@), input.capacity as int),
            target.0 <= i32::MAX,
            target.0 == kid_numbers as int + spec_greedy(
                sorted@.skip(j as int),
                capacity as int,
            ).0,
        decreases sorted@.len() - j,
    {
        let h = sorted[j];
        proof {
            assert(home_ok(sorted@[j as int]));
            assert(sorted@.skip(j as int).first() == sorted@[j as int]);
            assert(sorted@.skip(j as int).drop_first() =~= sorted@.skip(j + 1int));
            assert(all_homes_ok(sorted@.skip(j + 1int)));
            lemma_greedy_bounds(
                sorted@.skip(j + 1int),
                if capacity as int >= h.weight as int {
                    capacity as int - h.weight as int
                } else {
                    capacity as int
                },
            );
        }
        if capacity >= h.weight {
            capacity = capacity - h.weight;
            kid_numbers = kid_numbers + h.kids;
        }
        j = j + 1;
    }
    proof {
        assert(sorted@.skip(sorted@.len() as int) =~= Seq::<Home>::empty());
    }
    Output { kids: kid_numbers }
}

/// The homes drawn from the first `n` entries hold exactly the kids that the
/// positive entries among those `n` count.
proof fn lemma_kids_total_of_homes(kids: Seq<i32>, weight: Seq<i32>, n: int)
    requires
        0 <= n <= kids.len(),
        forall|i: int| 0 <= i < kids.len() ==> #[trigger] weight[i] >= 0,
    ensures
        spec_home_kids_sum(spec_homes_prefix(kids, weight, n)) == spec_kids_total(kids.take(n)),
        all_homes_ok(spec_homes_prefix(kids, weight, n)),
    decreases n,
{
    if n > 0 {
        lemma_kids_total_of_homes(kids, weight, n - 1);
        assert(kids.take(n).drop_last() =~= kids.take(n - 1));
        assert(kids.take(n).last() == kids[n - 1]);
        if kids[n - 1] > 0 {
            let rest = spec_homes_prefix(kids, weight, n - 1);
            let h = Home { kids: kids[n - 1], weight: weight[n - 1] };
            assert(rest.push(h).drop_last() =~= rest);
        }
    } else {
        assert(kids.take(0) =~= Seq::<i32>::empty());
    }
}

} // verus!
