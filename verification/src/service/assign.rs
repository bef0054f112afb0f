//! Pairing images with devices by size: the largest images go first, each
//! onto the largest device that is still free and strictly larger than it.
use vstd::prelude::*;
use vstd::multiset::Multiset;
use vstd::seq_lib::{lemma_multiset_commutative, to_multiset_build, to_multiset_remove};

verus! {

broadcast use vstd::multiset::group_multiset_axioms;

/// An image or a device, given by its identifier and its size in bytes.
pub type SizedItem = (u128, u64);

/// An image paired with the device it is written to.
pub type Pairing = (SizedItem, SizedItem);

/// The items of `ids` whose size is known (`Some`), in order, among the
/// first `n` of them.
pub open spec fn known_upto(ids: Seq<u128>, sizes: Seq<Option<u64>>, n: int) -> Seq<SizedItem>
    decreases n,
{
    if n <= 0 {
        Seq::empty()
    } else {
        let rest = known_upto(ids, sizes, n - 1);
        match sizes[n - 1] {
            Some(s) => rest.push((ids[n - 1], s)),
            None => rest,
        }
    }
}

/// The items of `ids` whose size is known (`Some`), in order.
pub open spec fn known_items(ids: Seq<u128>, sizes: Seq<Option<u64>>) -> Seq<SizedItem> {
    known_upto(ids, sizes, ids.len() as int)
}

/// Inserts `x` into a list ordered largest first, after every item at least
/// as large as `x`.
pub open spec fn insert_by_size(sorted: Seq<SizedItem>, x: SizedItem) -> Seq<SizedItem>
    decreases sorted.len(),
{
    if sorted.len() == 0 {
        seq![x]
    } else if sorted.last().1 >= x.1 {
        sorted.push(x)
    } else {
        insert_by_size(sorted.drop_last(), x).push(sorted.last())
    }
}

/// The items ordered largest first; items of equal size keep their order
/// (a stable sort by decreasing size).
pub open spec fn sorted_by_size(s: Seq<SizedItem>) -> Seq<SizedItem>
    decreases s.len(),
{
    if s.len() == 0 {
        Seq::empty()
    } else {
        insert_by_size(sorted_by_size(s.drop_last()), s.last())
    }
}

/// Whether the items are ordered largest first.
pub open spec fn is_largest_first(s: Seq<SizedItem>) -> bool {
    forall|i: int, j: int| 0 <= i < j < s.len() ==> #[trigger] s[i].1 >= #[trigger] s[j].1
}

/// The position of the first device strictly larger than `size`.
pub open spec fn first_fit(devices: Seq<SizedItem>, size: u64) -> Option<int>
    decreases devices.len(),
{
    if devices.len() == 0 {
        None
    } else if size < devices[0].1 {
        Some(0)
    } else {
        match first_fit(devices.drop_first(), size) {
            Some(p) => Some(p + 1),
            None => None,
        }
    }
}

/// Takes the images in order; each is paired with the first remaining
/// device that is strictly larger, which is then no longer available; an
/// image that fits no remaining device is left out.
pub open spec fn greedy_pairs(images: Seq<SizedItem>, devices: Seq<SizedItem>) -> Seq<Pairing>
    decreases images.len(),
{
    if images.len() == 0 {
        Seq::empty()
    } else {
        match first_fit(devices, images[0].1) {
            Some(p) => seq![(images[0], devices[p])] + greedy_pairs(
                images.drop_first(),
                devices.remove(p),
            ),
            None => greedy_pairs(images.drop_first(), devices),
        }
    }
}

/// The pairing that smart assignment makes: the images largest first, each
/// onto the largest free device that is strictly larger than it.
pub open spec fn smart_pairs(images: Seq<SizedItem>, devices: Seq<SizedItem>) -> Seq<Pairing> {
    greedy_pairs(sorted_by_size(images), sorted_by_size(devices))
}

// ---------------------------------------------------------------------------
// Sorting
// ---------------------------------------------------------------------------

proof fn lemma_insert_at(sorted: Seq<SizedItem>, x: SizedItem, j: int)
    requires
        0 <= j <= sorted.len(),
        forall|k: int| j <= k < sorted.len() ==> #[trigger] sorted[k].1 < x.1,
        j == 0 || sorted[j - 1].1 >= x.1,
    ensures
        insert_by_size(sorted, x) == sorted.insert(j, x),
    decreases sorted.len() - j,
{
    if j == sorted.len() {
        if sorted.len() == 0 {
            assert(sorted.insert(j, x) =~= seq![x]);
        } else {
            assert(sorted.insert(j, x) =~= sorted.push(x));
        }
    } else {
        let t = sorted.drop_last();
        assert(sorted.last().1 < x.1);
        assert forall|k: int| j <= k < t.len() implies #[trigger] t[k].1 < x.1 by {
            assert(t[k] == sorted[k]);
        }
        if j > 0 {
            assert(t[j - 1] == sorted[j - 1]);
        }
        lemma_insert_at(t, x, j);
        assert(t.insert(j, x).push(sorted.last()) =~= sorted.insert(j, x));
    }
}

proof fn lemma_insert_keeps_order(sorted: Seq<SizedItem>, x: SizedItem, j: int)
    requires
        is_largest_first(sorted),
        0 <= j <= sorted.len(),
        forall|k: int| j <= k < sorted.len() ==> #[trigger] sorted[k].1 < x.1,
        j == 0 || sorted[j - 1].1 >= x.1,
    ensures
        is_largest_first(sorted.insert(j, x)),
{
    let r = sorted.insert(j, x);
    assert forall|a: int, b: int| 0 <= a < b < r.len() implies #[trigger] r[a].1 >= #[trigger] r[b].1 by {
        if a < j {
            if b < j {
                assert(r[a] == sorted[a] && r[b] == sorted[b]);
            } else if b == j {
                assert(r[a] == sorted[a]);
                assert(sorted[a].1 >= sorted[j - 1].1);
            } else {
                assert(r[a] == sorted[a] && r[b] == sorted[b - 1]);
            }
        } else if a == j {
            assert(r[b] == sorted[b - 1]);
        } else {
            assert(r[a] == sorted[a - 1] && r[b] == sorted[b - 1]);
        }
    }
}

proof fn lemma_insert_multiset(s: Seq<SizedItem>, x: SizedItem, j: int)
    requires
        0 <= j <= s.len(),
    ensures
        s.insert(j, x).to_multiset() =~= s.to_multiset().insert(x),
{
    let r = s.insert(j, x);
    assert(r[j] == x);
    assert(r.remove(j) =~= s);
    to_multiset_remove(r, j);
    assert(r.to_multiset().count(x) > 0) by {
        assert(r.contains(x));
        vstd::seq_lib::to_multiset_contains(r, x);
    }
}

/// Orders the items largest first, keeping the order of items of equal
/// size (insertion sort).
pub fn sort_by_size(items: &Vec<SizedItem>) -> (r: Vec<SizedItem>)
    ensures
        r@ == sorted_by_size(items@),
        is_largest_first(r@),
        r@.to_multiset() =~= items@.to_multiset(),
{
    let mut out: Vec<SizedItem> = Vec::new();
    let mut k: usize = 0;
    assert(items@.take(0) =~= Seq::<SizedItem>::empty());
    while k < items.len()
        invariant
            k <= items@.len(),
            out@ == sorted_by_size(items@.take(k as int)),
            is_largest_first(out@),
            out@.to_multiset() =~= items@.take(k as int).to_multiset(),
        decreases items@.len() - k,
    {
        let x = items[k];
        let mut j: usize = out.len();
        while j > 0 && out[j - 1].1 < x.1
            invariant
                j <= out@.len(),
                forall|m: int| j <= m < out@.len() ==> #[trigger] out@[m].1 < x.1,
            decreases j,
        {
            j = j - 1;
        }
        proof {
            lemma_insert_at(out@, x, j as int);
            lemma_insert_keeps_order(out@, x, j as int);
            lemma_insert_multiset(out@, x, j as int);
            let t = items@.take(k + 1);
            assert(t.drop_last() =~= items@.take(k as int));
            assert(t.last() == x);
            assert(t =~= items@.take(k as int).push(x));
            to_multiset_build(items@.take(k as int), x);
        }
        out.insert(j, x);
        k = k + 1;
    }
    assert(items@.take(items@.len() as int) =~= items@);
    out
}

// ---------------------------------------------------------------------------
// Greedy pairing
// ---------------------------------------------------------------------------

proof fn lemma_first_fit_found(devices: Seq<SizedItem>, size: u64, j: int)
    requires
        0 <= j < devices.len(),
        size < devices[j].1,
        forall|m: int| 0 <= m < j ==> !(size < #[trigger] devices[m].1),
    ensures
        first_fit(devices, size) == Some(j),
    decreases j,
{
    if j > 0 {
        let t = devices.drop_first();
        assert forall|m: int| 0 <= m < j - 1 implies !(size < #[trigger] t[m].1) by {
            assert(t[m] == devices[m + 1]);
        }
        assert(t[j - 1] == devices[j]);
        assert(!(size < devices[0].1));
        lemma_first_fit_found(t, size, j - 1);
    }
}

proof fn lemma_first_fit_none(devices: Seq<SizedItem>, size: u64)
    requires
        forall|m: int| 0 <= m < devices.len() ==> !(size < #[trigger] devices[m].1),
    ensures
        first_fit(devices, size) == None::<int>,
    decreases devices.len(),
{
    if devices.len() > 0 {
        let t = devices.drop_first();
        assert forall|m: int| 0 <= m < t.len() implies !(size < #[trigger] t[m].1) by {
            assert(t[m] == devices[m + 1]);
        }
        assert(!(size < devices[0].1));
        lemma_first_fit_none(t, size);
    }
}

/// The position of the first device strictly larger than `size`.
pub fn find_first_fit(devices: &Vec<SizedItem>, size: u64) -> (r: Option<usize>)
    ensures
        match r {
            Some(p) => first_fit(devices@, size) == Some(p as int),
            None => first_fit(devices@, size) == None::<int>,
        },
        r matches Some(p) ==> p < devices@.len() && size < devices@[p as int].1,
{
    let mut j: usize = 0;
    while j < devices.len()
        invariant
            j <= devices@.len(),
            forall|m: int| 0 <= m < j ==> !(size < #[trigger] devices@[m].1),
        decreases devices@.len() - j,
    {
        if size < devices[j].1 {
            proof {
                lemma_first_fit_found(devices@, size, j as int);
            }
            return Some(j);
        }
        j = j + 1;
    }
    proof {
        lemma_first_fit_none(devices@, size);
    }
    None
}

/// Pairs the images, in the order given, with the devices, as
/// `greedy_pairs` says.
pub fn greedy_pairing(images: &Vec<SizedItem>, devices: &Vec<SizedItem>) -> (r: Vec<Pairing>)
    ensures
        r@ == greedy_pairs(images@, devices@),
{
    let mut free: Vec<SizedItem> = Vec::new();
    let mut m: usize = 0;
    while m < devices.len()
        invariant
            m <= devices@.len(),
            free@ == devices@.take(m as int),
        decreases devices@.len() - m,
    {
        free.push(devices[m]);
        m = m + 1;
        assert(free@ =~= devices@.take(m as int));
    }
    assert(devices@.take(devices@.len() as int) =~= devices@);
    let mut out: Vec<Pairing> = Vec::new();
    let mut k: usize = 0;
    assert(images@.skip(0) =~= images@);
    while k < images.len()
        invariant
            k <= images@.len(),
            greedy_pairs(images@, devices@) == out@ + greedy_pairs(images@.skip(k as int), free@),
        decreases images@.len() - k,
    {
        let img = images[k];
        let ghost rest = images@.skip(k as int);
        assert(rest[0] == img);
        assert(rest.drop_first() =~= images@.skip(k + 1));
        match find_first_fit(&free, img.1) {
            Some(p) => {
                let ghost before = free@;
                let dev = free.remove(p);
                let ghost old_out = out@;
                out.push((img, dev));
                assert(out@ + greedy_pairs(images@.skip(k + 1), free@) =~= old_out + (seq![
                    (img, dev),
                ] + greedy_pairs(images@.skip(k + 1), before.remove(p as int))));
            },
            None => {},
        }
        k = k + 1;
    }
    assert(images@.skip(k as int) =~= Seq::<SizedItem>::empty());
    assert(out@ + Seq::<Pairing>::empty() =~= out@);
    out
}

/// The pairing that smart assignment makes of the given images and
/// devices: `smart_pairs`.
pub fn smart_assign_pairs(images: &Vec<SizedItem>, devices: &Vec<SizedItem>) -> (r: Vec<Pairing>)
    ensures
        r@ == smart_pairs(images@, devices@),
{
    let sorted_images = sort_by_size(images);
    let sorted_devices = sort_by_size(devices);
    greedy_pairing(&sorted_images, &sorted_devices)
}

/// The items of `ids` whose size is known, in order: what the lookups of
/// images or devices found.
pub fn known_sized_items(ids: &Vec<u128>, sizes: &Vec<Option<u64>>) -> (r: Vec<SizedItem>)
    requires
        sizes@.len() == ids@.len(),
    ensures
        r@ == known_items(ids@, sizes@),
{
    let mut out: Vec<SizedItem> = Vec::new();
    let mut k: usize = 0;
    while k < ids.len()
        invariant
            sizes@.len() == ids@.len(),
            k <= ids@.len(),
            out@ == known_upto(ids@, sizes@, k as int),
        decreases ids@.len() - k,
    {
        match sizes[k] {
            Some(s) => {
                out.push((ids[k], s));
            },
            None => {},
        }
        k = k + 1;
    }
    out
}

// ---------------------------------------------------------------------------
// Laws
// ---------------------------------------------------------------------------

proof fn lemma_first_fit_fits(devices: Seq<SizedItem>, size: u64)
    ensures
        first_fit(devices, size) matches Some(p) ==> 0 <= p < devices.len() && size
            < devices[p].1,
    decreases devices.len(),
{
    if devices.len() > 0 {
        lemma_first_fit_fits(devices.drop_first(), size);
    }
}

proof fn lemma_singleton_multiset<A>(x: A)
    ensures
        seq![x].to_multiset() =~= Multiset::<A>::empty().insert(x),
{
    assert(seq![x] =~= Seq::<A>::empty().push(x));
    to_multiset_build(Seq::<A>::empty(), x);
    assert(Seq::<A>::empty().to_multiset() =~= Multiset::<A>::empty()) by {
        vstd::seq_lib::to_multiset_len(Seq::<A>::empty());
    }
}

/// Every image that smart assignment pairs with a device fits on it: the
/// device is strictly larger than the image.
pub proof fn law_greedy_pairs_fit(images: Seq<SizedItem>, devices: Seq<SizedItem>)
    ensures
        forall|k: int|
            0 <= k < greedy_pairs(images, devices).len() ==> #[trigger] greedy_pairs(
                images,
                devices,
            )[k].0.1 < greedy_pairs(images, devices)[k].1.1,
    decreases images.len(),
{
    if images.len() > 0 {
        lemma_first_fit_fits(devices, images[0].1);
        match first_fit(devices, images[0].1) {
            Some(p) => {
                law_greedy_pairs_fit(images.drop_first(), devices.remove(p));
                let rest = greedy_pairs(images.drop_first(), devices.remove(p));
                let all = greedy_pairs(images, devices);
                assert(all == seq![(images[0], devices[p])] + rest);
                assert forall|k: int| 0 <= k < all.len() implies #[trigger] all[k].0.1
                    < all[k].1.1 by {
                    if k == 0 {
                        assert(all[0] == (images[0], devices[p]));
                    } else {
                        assert(all[k] == rest[k - 1]);
                    }
                }
            },
            None => {
                law_greedy_pairs_fit(images.drop_first(), devices);
                let all = greedy_pairs(images, devices);
                let rest = greedy_pairs(images.drop_first(), devices);
                assert(all == rest);
                assert forall|k: int| 0 <= k < all.len() implies #[trigger] all[k].0.1
                    < all[k].1.1 by {
                    assert(all[k] == rest[k]);
                }
            },
        }
    }
}

/// The devices of a greedy pairing are among the given devices, each used
/// at most as often as it is given.
pub proof fn law_greedy_pairs_devices(images: Seq<SizedItem>, devices: Seq<SizedItem>)
    ensures
        greedy_pairs(images, devices).map_values(|p: Pairing| p.1).to_multiset().subset_of(
            devices.to_multiset(),
        ),
    decreases images.len(),
{
    let f = |p: Pairing| p.1;
    if images.len() == 0 {
        let e = greedy_pairs(images, devices).map_values(f);
        assert(e =~= Seq::<SizedItem>::empty());
        vstd::seq_lib::to_multiset_len(e);
        assert(e.to_multiset() =~= Multiset::<SizedItem>::empty());
    } else {
        lemma_first_fit_fits(devices, images[0].1);
        match first_fit(devices, images[0].1) {
            Some(p) => {
                let left = devices.remove(p);
                law_greedy_pairs_devices(images.drop_first(), left);
                let rest = greedy_pairs(images.drop_first(), left).map_values(f);
                let all = greedy_pairs(images, devices).map_values(f);
                assert(all =~= seq![devices[p]] + rest);
                lemma_multiset_commutative(seq![devices[p]], rest);
                lemma_singleton_multiset(devices[p]);
                to_multiset_remove(devices, p);
                assert(devices.contains(devices[p]));
                vstd::seq_lib::to_multiset_contains(devices, devices[p]);
            },
            None => {
                law_greedy_pairs_devices(images.drop_first(), devices);
            },
        }
    }
}

/// The images of a greedy pairing are among the given images, each used at
/// most as often as it is given.
pub proof fn law_greedy_pairs_images(images: Seq<SizedItem>, devices: Seq<SizedItem>)
    ensures
        greedy_pairs(images, devices).map_values(|p: Pairing| p.0).to_multiset().subset_of(
            images.to_multiset(),
        ),
    decreases images.len(),
{
    let f = |p: Pairing| p.0;
    if images.len() == 0 {
        let e = greedy_pairs(images, devices).map_values(f);
        assert(e =~= Seq::<SizedItem>::empty());
        vstd::seq_lib::to_multiset_len(e);
        assert(e.to_multiset() =~= Multiset::<SizedItem>::empty());
    } else {
        let tail = images.drop_first();
        assert(images =~= seq![images[0]] + tail);
        lemma_multiset_commutative(seq![images[0]], tail);
        lemma_singleton_multiset(images[0]);
        match first_fit(devices, images[0].1) {
            Some(p) => {
                law_greedy_pairs_images(tail, devices.remove(p));
                let rest = greedy_pairs(tail, devices.remove(p)).map_values(f);
                let all = greedy_pairs(images, devices).map_values(f);
                assert(all =~= seq![images[0]] + rest);
                lemma_multiset_commutative(seq![images[0]], rest);
            },
            None => {
                law_greedy_pairs_images(tail, devices);
            },
        }
    }
}

/// A greedy pairing makes no more pairs than there are images, nor more
/// than there are devices.
pub proof fn law_greedy_pairs_count(images: Seq<SizedItem>, devices: Seq<SizedItem>)
    ensures
        greedy_pairs(images, devices).len() <= images.len(),
        greedy_pairs(images, devices).len() <= devices.len(),
    decreases images.len(),
{
    if images.len() > 0 {
        lemma_first_fit_fits(devices, images[0].1);
        match first_fit(devices, images[0].1) {
            Some(p) => {
                law_greedy_pairs_count(images.drop_first(), devices.remove(p));
            },
            None => {
                law_greedy_pairs_count(images.drop_first(), devices);
            },
        }
    }
}

/// Smart assignment pairs each image only with a device strictly larger
/// than it, writes to no device more often than it was given, places no
/// image more often than it was given, and so makes no more pairs than there
/// are images or devices.
pub proof fn law_smart_pairs_sound(images: Seq<SizedItem>, devices: Seq<SizedItem>)
    ensures
        forall|k: int|
            0 <= k < smart_pairs(images, devices).len() ==> #[trigger] smart_pairs(
                images,
                devices,
            )[k].0.1 < smart_pairs(images, devices)[k].1.1,
        smart_pairs(images, devices).map_values(|p: Pairing| p.1).to_multiset().subset_of(
            devices.to_multiset(),
        ),
        smart_pairs(images, devices).map_values(|p: Pairing| p.0).to_multiset().subset_of(
            images.to_multiset(),
        ),
        smart_pairs(images, devices).len() <= images.len(),
        smart_pairs(images, devices).len() <= devices.len(),
{
    let si = sorted_by_size(images);
    let sd = sorted_by_size(devices);
    law_greedy_pairs_count(si, sd);
    vstd::seq_lib::to_multiset_len(si);
    vstd::seq_lib::to_multiset_len(images);
    vstd::seq_lib::to_multiset_len(sd);
    vstd::seq_lib::to_multiset_len(devices);
    law_greedy_pairs_fit(si, sd);
    law_greedy_pairs_devices(si, sd);
    law_greedy_pairs_images(si, sd);
    law_sorted_by_size(images);
    law_sorted_by_size(devices);
}

/// Sorting by size orders the items largest first and keeps exactly the
/// same items.
pub proof fn law_sorted_by_size(s: Seq<SizedItem>)
    ensures
        is_largest_first(sorted_by_size(s)),
        sorted_by_size(s).to_multiset() =~= s.to_multiset(),
    decreases s.len(),
{
    if s.len() == 0 {
        vstd::seq_lib::to_multiset_len(s);
        vstd::seq_lib::to_multiset_len(sorted_by_size(s));
    } else {
        let t = s.drop_last();
        law_sorted_by_size(t);
        let st = sorted_by_size(t);
        let x = s.last();
        let j = position_for(st, x);
        lemma_position_for(st, x);
        lemma_insert_at(st, x, j);
        lemma_insert_keeps_order(st, x, j);
        lemma_insert_multiset(st, x, j);
        assert(t.push(x) =~= s);
        to_multiset_build(t, x);
    }
}

/// Where `insert_by_size` puts `x` in `sorted`.
spec fn position_for(sorted: Seq<SizedItem>, x: SizedItem) -> int
    decreases sorted.len(),
{
    if sorted.len() == 0 || sorted.last().1 >= x.1 {
        sorted.len() as int
    } else {
        position_for(sorted.drop_last(), x)
    }
}

proof fn lemma_position_for(sorted: Seq<SizedItem>, x: SizedItem)
    ensures
        0 <= position_for(sorted, x) <= sorted.len(),
        forall|k: int|
            position_for(sorted, x) <= k < sorted.len() ==> #[trigger] sorted[k].1 < x.1,
        position_for(sorted, x) == 0 || sorted[position_for(sorted, x) - 1].1 >= x.1,
    decreases sorted.len(),
{
    if sorted.len() > 0 && sorted.last().1 < x.1 {
        let t = sorted.drop_last();
        lemma_position_for(t, x);
        let j = position_for(t, x);
        assert forall|k: int| j <= k < sorted.len() implies #[trigger] sorted[k].1 < x.1 by {
            if k < t.len() {
                assert(t[k] == sorted[k]);
            }
        }
        if j > 0 {
            assert(t[j - 1] == sorted[j - 1]);
        }
    }
}

/// The images of a pairing, in order.
pub open spec fn paired_images(pairs: Seq<Pairing>) -> Seq<SizedItem> {
    pairs.map_values(|p: Pairing| p.0)
}

/// The devices of a pairing, in order.
pub open spec fn paired_devices(pairs: Seq<Pairing>) -> Seq<SizedItem> {
    pairs.map_values(|p: Pairing| p.1)
}

proof fn lemma_largest_first_tail(s: Seq<SizedItem>)
    requires
        is_largest_first(s),
        s.len() > 0,
    ensures
        is_largest_first(s.drop_first()),
        forall|x: SizedItem| s.drop_first().contains(x) ==> x.1 <= s[0].1,
{
    let t = s.drop_first();
    assert forall|i: int, j: int| 0 <= i < j < t.len() implies #[trigger] t[i].1 >= #[trigger] t[j].1 by {
        assert(t[i] == s[i + 1] && t[j] == s[j + 1]);
    }
    assert forall|x: SizedItem| t.contains(x) implies x.1 <= s[0].1 by {
        let j = choose|j: int| 0 <= j < t.len() && t[j] == x;
        assert(t[j] == s[j + 1]);
        assert(s[0].1 >= s[j + 1].1);
    }
}

proof fn lemma_bounded_by_multiset(sub: Seq<SizedItem>, sup: Seq<SizedItem>, bound: u64)
    requires
        sub.to_multiset().subset_of(sup.to_multiset()),
        forall|x: SizedItem| sup.contains(x) ==> x.1 <= bound,
    ensures
        forall|k: int| 0 <= k < sub.len() ==> (#[trigger] sub[k]).1 <= bound,
{
    assert forall|k: int| 0 <= k < sub.len() implies (#[trigger] sub[k]).1 <= bound by {
        let x = sub[k];
        assert(sub.contains(x));
        vstd::seq_lib::to_multiset_contains(sub, x);
        vstd::seq_lib::to_multiset_contains(sup, x);
    }
}

proof fn lemma_prepend_largest_first(x: SizedItem, rest: Seq<SizedItem>)
    requires
        is_largest_first(rest),
        forall|k: int| 0 <= k < rest.len() ==> (#[trigger] rest[k]).1 <= x.1,
    ensures
        is_largest_first(seq![x] + rest),
{
    let all = seq![x] + rest;
    assert forall|i: int, j: int| 0 <= i < j < all.len() implies #[trigger] all[i].1 >= #[trigger] all[j].1 by {
        assert(all[j] == rest[j - 1]);
        if i > 0 {
            assert(all[i] == rest[i - 1]);
        }
    }
}

proof fn lemma_greedy_images_largest_first(images: Seq<SizedItem>, devices: Seq<SizedItem>)
    requires
        is_largest_first(images),
    ensures
        is_largest_first(paired_images(greedy_pairs(images, devices))),
    decreases images.len(),
{
    if images.len() == 0 {
        assert(paired_images(greedy_pairs(images, devices)) =~= Seq::<SizedItem>::empty());
    } else {
        let tail = images.drop_first();
        lemma_largest_first_tail(images);
        match first_fit(devices, images[0].1) {
            Some(p) => {
                let left = devices.remove(p);
                lemma_greedy_images_largest_first(tail, left);
                law_greedy_pairs_images(tail, left);
                let rest = paired_images(greedy_pairs(tail, left));
                lemma_bounded_by_multiset(rest, tail, images[0].1);
                lemma_prepend_largest_first(images[0], rest);
                assert(paired_images(greedy_pairs(images, devices)) =~= seq![images[0]] + rest);
            },
            None => {
                lemma_greedy_images_largest_first(tail, devices);
            },
        }
    }
}

proof fn lemma_first_fit_largest_first(devices: Seq<SizedItem>, size: u64)
    requires
        is_largest_first(devices),
    ensures
        first_fit(devices, size) matches Some(p) ==> p == 0,
{
    if devices.len() > 0 && !(size < devices[0].1) {
        assert forall|m: int| 0 <= m < devices.len() implies !(size < #[trigger] devices[m].1) by {
            if m > 0 {
                assert(devices[0].1 >= devices[m].1);
            }
        }
        lemma_first_fit_none(devices, size);
    }
}

proof fn lemma_greedy_devices_largest_first(images: Seq<SizedItem>, devices: Seq<SizedItem>)
    requires
        is_largest_first(devices),
    ensures
        is_largest_first(paired_devices(greedy_pairs(images, devices))),
    decreases images.len(),
{
    if images.len() == 0 {
        assert(paired_devices(greedy_pairs(images, devices)) =~= Seq::<SizedItem>::empty());
    } else {
        let tail = images.drop_first();
        lemma_first_fit_largest_first(devices, images[0].1);
        lemma_first_fit_fits(devices, images[0].1);
        match first_fit(devices, images[0].1) {
            Some(p) => {
                assert(p == 0);
                let left = devices.remove(p);
                assert(left =~= devices.drop_first());
                lemma_largest_first_tail(devices);
                lemma_greedy_devices_largest_first(tail, left);
                law_greedy_pairs_devices(tail, left);
                let rest = paired_devices(greedy_pairs(tail, left));
                lemma_bounded_by_multiset(rest, left, devices[0].1);
                lemma_prepend_largest_first(devices[0], rest);
                assert(paired_devices(greedy_pairs(images, devices)) =~= seq![devices[0]] + rest);
            },
            None => {
                lemma_greedy_devices_largest_first(tail, devices);
            },
        }
    }
}

proof fn lemma_sorted_by_size_of_sorted(s: Seq<SizedItem>)
    requires
        is_largest_first(s),
    ensures
        sorted_by_size(s) == s,
    decreases s.len(),
{
    if s.len() > 0 {
        let t = s.drop_last();
        assert forall|i: int, j: int| 0 <= i < j < t.len() implies #[trigger] t[i].1 >= #[trigger] t[j].1 by {
            assert(t[i] == s[i] && t[j] == s[j]);
        }
        lemma_sorted_by_size_of_sorted(t);
        if t.len() == 0 {
            assert(seq![s.last()] =~= s);
        } else {
            assert(t.last() == s[s.len() - 2]);
            assert(t.push(s.last()) =~= s);
        }
    }
}

/// Smart assignment takes the images largest first: the images of its
/// pairing come in order of decreasing size, and the pairing of a list of
/// images is the pairing of the same images sorted largest first, whatever
/// order they were given in. Each image goes onto the largest device still
/// free, so the devices of the pairing too come in order of decreasing size.
pub proof fn law_smart_pairs_largest_first(images: Seq<SizedItem>, devices: Seq<SizedItem>)
    ensures
        is_largest_first(paired_images(smart_pairs(images, devices))),
        is_largest_first(paired_devices(smart_pairs(images, devices))),
        smart_pairs(images, devices) == smart_pairs(sorted_by_size(images), devices),
        smart_pairs(images, devices) == smart_pairs(images, sorted_by_size(devices)),
{
    law_sorted_by_size(images);
    law_sorted_by_size(devices);
    let si = sorted_by_size(images);
    let sd = sorted_by_size(devices);
    lemma_greedy_images_largest_first(si, sd);
    lemma_greedy_devices_largest_first(si, sd);
    lemma_sorted_by_size_of_sorted(si);
    lemma_sorted_by_size_of_sorted(sd);
}

proof fn lemma_greedy_takes_first_devices(images: Seq<SizedItem>, devices: Seq<SizedItem>)
    requires
        is_largest_first(devices),
    ensures
        greedy_pairs(images, devices).len() <= devices.len(),
        paired_devices(greedy_pairs(images, devices)) == devices.take(
            greedy_pairs(images, devices).len() as int,
        ),
    decreases images.len(),
{
    law_greedy_pairs_count(images, devices);
    if images.len() == 0 {
        assert(paired_devices(greedy_pairs(images, devices)) =~= devices.take(0));
    } else {
        let tail = images.drop_first();
        lemma_first_fit_largest_first(devices, images[0].1);
        lemma_first_fit_fits(devices, images[0].1);
        match first_fit(devices, images[0].1) {
            Some(p) => {
                let left = devices.remove(p);
                assert(left =~= devices.drop_first());
                lemma_largest_first_tail(devices);
                lemma_greedy_takes_first_devices(tail, left);
                let r = greedy_pairs(tail, left);
                assert(paired_devices(greedy_pairs(images, devices)) =~= seq![devices[0]]
                    + paired_devices(r));
                assert(seq![devices[0]] + left.take(r.len() as int) =~= devices.take(
                    r.len() + 1 as int,
                ));
            },
            None => {
                lemma_greedy_takes_first_devices(tail, devices);
            },
        }
    }
}

proof fn lemma_greedy_places_fitting(
    images: Seq<SizedItem>,
    devices: Seq<SizedItem>,
    x: SizedItem,
    j: int,
)
    requires
        is_largest_first(devices),
        images.contains(x),
        greedy_pairs(images, devices).len() <= j < devices.len(),
        x.1 < devices[j].1,
    ensures
        paired_images(greedy_pairs(images, devices)).contains(x),
    decreases images.len(),
{
    let tail = images.drop_first();
    lemma_first_fit_largest_first(devices, images[0].1);
    lemma_first_fit_fits(devices, images[0].1);
    law_greedy_pairs_count(tail, devices);
    let k = choose|k: int| 0 <= k < images.len() && images[k] == x;
    match first_fit(devices, images[0].1) {
        Some(p) => {
            let left = devices.remove(p);
            assert(left =~= devices.drop_first());
            let r = greedy_pairs(tail, left);
            let all = paired_images(greedy_pairs(images, devices));
            assert(all =~= seq![images[0]] + paired_images(r));
            if k == 0 {
                assert(all[0] == x);
            } else {
                assert(tail[k - 1] == x);
                lemma_largest_first_tail(devices);
                assert(left[j - 1] == devices[j]);
                lemma_greedy_places_fitting(tail, left, x, j - 1);
                let q = choose|q: int| 0 <= q < paired_images(r).len() && paired_images(r)[q] == x;
                assert(all[q + 1] == x);
            }
        },
        None => {
            if k == 0 {
                assert(images[0].1 < devices[j].1);
                lemma_first_fit_found_some(devices, images[0].1, j);
                assert(false);
            } else {
                assert(tail[k - 1] == x);
                lemma_greedy_places_fitting(tail, devices, x, j);
                assert(paired_images(greedy_pairs(images, devices)) == paired_images(
                    greedy_pairs(tail, devices),
                ));
            }
        },
    }
}

proof fn lemma_first_fit_found_some(devices: Seq<SizedItem>, size: u64, j: int)
    requires
        0 <= j < devices.len(),
        size < devices[j].1,
    ensures
        first_fit(devices, size) is Some,
    decreases j,
{
    if j > 0 && !(size < devices[0].1) {
        assert(devices.drop_first()[j - 1] == devices[j]);
        lemma_first_fit_found_some(devices.drop_first(), size, j - 1);
    }
}

/// Each image that smart assignment places goes onto the largest device
/// still free: the devices it uses are the largest ones, largest first (the
/// first of the devices sorted by size, as many as there are pairs).
pub proof fn law_smart_pairs_take_largest_devices(images: Seq<SizedItem>, devices: Seq<SizedItem>)
    ensures
        paired_devices(smart_pairs(images, devices)) == sorted_by_size(devices).take(
            smart_pairs(images, devices).len() as int,
        ),
{
    law_sorted_by_size(devices);
    lemma_greedy_takes_first_devices(sorted_by_size(images), sorted_by_size(devices));
}

/// Smart assignment leaves an image out only when it fits none of the
/// devices left free: an image smaller than a device that no pair uses is
/// placed.
pub proof fn law_smart_pairs_leave_out_only_unfitting(
    images: Seq<SizedItem>,
    devices: Seq<SizedItem>,
    x: SizedItem,
    j: int,
)
    requires
        images.contains(x),
        smart_pairs(images, devices).len() <= j < devices.len(),
        x.1 < sorted_by_size(devices)[j].1,
    ensures
        paired_images(smart_pairs(images, devices)).contains(x),
{
    law_sorted_by_size(images);
    law_sorted_by_size(devices);
    let si = sorted_by_size(images);
    let sd = sorted_by_size(devices);
    vstd::seq_lib::to_multiset_len(devices);
    vstd::seq_lib::to_multiset_len(sd);
    vstd::seq_lib::to_multiset_contains(images, x);
    vstd::seq_lib::to_multiset_contains(si, x);
    lemma_greedy_places_fitting(si, sd, x, j);
}

} // verus!
