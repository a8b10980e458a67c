use crate::epaper::target::DrawTarget;
use crate::gui::fonts::Fonts;
use crate::gui::geometry::{Dimensions, Orientation, Point, Rectangle, StackUnitDimension};
use crate::gui::layouts::natural::natural_size;
use crate::gui::picture::{lemma_shows_joined, picture, shows, stacked_picture};
use crate::gui::{
    all_redraw, beaten, drawn_within, lemma_drawn_within_chain, published, recorded_in,
    settled, ControlSignal, Event, Structure, Widget,
};
use crate::playback::PlaybackStatus;
use vstd::prelude::*;

verus! {

/// What a request asks for when it names a number of units; a stretching
/// request names none.
pub open spec fn requested_units(request: StackUnitDimension) -> nat {
    match request {
        StackUnitDimension::Pixel(units) => units as nat,
        StackUnitDimension::Stretch => 0,
    }
}

/// The units that the fixed requests of `requests` ask for, all together.
pub open spec fn fixed_total(requests: Seq<StackUnitDimension>) -> nat
    decreases requests.len(),
{
    if requests.len() == 0 {
        0
    } else {
        fixed_total(requests.drop_last()) + requested_units(requests.last())
    }
}

/// One for a request that stretches, zero for one that does not.
pub open spec fn stretching(request: StackUnitDimension) -> nat {
    if request is Stretch {
        1
    } else {
        0
    }
}

/// How many of `requests` stretch.
pub open spec fn stretch_count(requests: Seq<StackUnitDimension>) -> nat
    decreases requests.len(),
{
    if requests.len() == 0 {
        0
    } else {
        stretch_count(requests.drop_last()) + stretching(requests.last())
    }
}

/// The smaller of two numbers.
pub open spec fn smaller(a: nat, b: nat) -> nat {
    if a <= b {
        a
    } else {
        b
    }
}

/// The units that the fixed requests before index `i` have been given out of
/// `total`: what they ask for, as far as `total` reaches.
pub open spec fn fixed_taken(requests: Seq<StackUnitDimension>, total: u32, i: int) -> nat {
    smaller(fixed_total(requests.take(i)), total as nat)
}

/// The units that are left for the stretching requests to share.
pub open spec fn stretch_pool(requests: Seq<StackUnitDimension>, total: u32) -> nat {
    (total - fixed_taken(requests, total, requests.len() as int)) as nat
}

/// The share of the stretching request at index `i`: the pool divided evenly,
/// rounded down, and one unit more for as many of the earliest stretching
/// requests as the division leaves over.
pub open spec fn stretch_share(requests: Seq<StackUnitDimension>, total: u32, i: int) -> nat {
    let pool = stretch_pool(requests, total);
    let count = stretch_count(requests);
    let rank = stretch_count(requests.take(i));
    pool / count + if rank < pool % count {
        1nat
    } else {
        0nat
    }
}

/// The units given to the request at index `i` when `requests` share `total`.
pub open spec fn allotment(requests: Seq<StackUnitDimension>, total: u32, i: int) -> nat {
    match requests[i] {
        StackUnitDimension::Pixel(units) => smaller(
            units as nat,
            (total - fixed_taken(requests, total, i)) as nat,
        ),
        StackUnitDimension::Stretch => stretch_share(requests, total, i),
    }
}

/// The units given to the requests before index `i`, all together: where the
/// request at index `i` starts along the axis.
pub open spec fn offset(requests: Seq<StackUnitDimension>, total: u32, i: int) -> nat
    decreases i,
{
    if i <= 0 {
        0
    } else {
        offset(requests, total, i - 1) + allotment(requests, total, i - 1)
    }
}

/// What the first `rank` stretching requests receive together from a pool
/// shared by `count` of them.
pub open spec fn shares_before(pool: nat, count: nat, rank: nat) -> nat {
    if count == 0 {
        0
    } else {
        rank * (pool / count) + smaller(rank, pool % count)
    }
}

/// One request more adds what it asks for, and one if it stretches.
proof fn lemma_prefix_step(requests: Seq<StackUnitDimension>, i: int)
    requires
        0 <= i < requests.len(),
    ensures
        fixed_total(requests.take(i + 1)) == fixed_total(requests.take(i)) + requested_units(
            requests[i],
        ),
        stretch_count(requests.take(i + 1)) == stretch_count(requests.take(i)) + stretching(
            requests[i],
        ),
{
    assert(requests.take(i + 1).drop_last() =~= requests.take(i));
    assert(requests.take(i + 1).last() == requests[i]);
}

/// A longer prefix asks for no less and holds no fewer stretching requests.
proof fn lemma_prefix_counts_grow(requests: Seq<StackUnitDimension>, i: int, j: int)
    requires
        0 <= i <= j <= requests.len(),
    ensures
        fixed_total(requests.take(i)) <= fixed_total(requests.take(j)),
        stretch_count(requests.take(i)) <= stretch_count(requests.take(j)),
    decreases j - i,
{
    if i < j {
        lemma_prefix_counts_grow(requests, i, j - 1);
        lemma_prefix_step(requests, j - 1);
    }
}

/// A stretching request has fewer stretching requests before it than there
/// are in all.
proof fn lemma_rank_below_count(requests: Seq<StackUnitDimension>, i: int)
    requires
        0 <= i < requests.len(),
        requests[i] is Stretch,
    ensures
        stretch_count(requests.take(i)) < stretch_count(requests),
{
    lemma_prefix_step(requests, i);
    lemma_prefix_counts_grow(requests, i + 1, requests.len() as int);
    assert(requests.take(requests.len() as int) =~= requests);
}

/// Where a request starts: what the fixed requests before it took, and what
/// the stretching requests before it were given.
proof fn lemma_offset_closed_form(requests: Seq<StackUnitDimension>, total: u32, i: int)
    requires
        0 <= i <= requests.len(),
    ensures
        offset(requests, total, i) == fixed_taken(requests, total, i) + shares_before(
            stretch_pool(requests, total),
            stretch_count(requests),
            stretch_count(requests.take(i)),
        ),
    decreases i,
{
    if i > 0 {
        let k = i - 1;
        lemma_offset_closed_form(requests, total, k);
        lemma_prefix_step(requests, k);
        let pool = stretch_pool(requests, total);
        let count = stretch_count(requests);
        let rank = stretch_count(requests.take(k));
        match requests[k] {
            StackUnitDimension::Pixel(units) => {},
            StackUnitDimension::Stretch => {
                lemma_rank_below_count(requests, k);
                let share = pool / count;
                assert((rank + 1) * share == rank * share + share) by (nonlinear_arith);
            },
        }
    } else {
        assert(requests.take(0) =~= Seq::<StackUnitDimension>::empty());
        let share = stretch_pool(requests, total) / stretch_count(requests);
        assert(0 * share == 0) by (nonlinear_arith);
    }
}

/// The requests never receive more than `total` together; they receive all of
/// it as soon as one of them stretches.
pub proof fn lemma_allotments_fill_total(requests: Seq<StackUnitDimension>, total: u32)
    ensures
        offset(requests, total, requests.len() as int) <= total,
        stretch_count(requests) > 0 ==> offset(requests, total, requests.len() as int) == total,
        stretch_count(requests) == 0 ==> offset(requests, total, requests.len() as int) == smaller(
            fixed_total(requests),
            total as nat,
        ),
{
    let n = requests.len() as int;
    lemma_offset_closed_form(requests, total, n);
    assert(requests.take(n) =~= requests);
    let pool = stretch_pool(requests, total);
    let count = stretch_count(requests);
    if count > 0 {
        assert(pool % count < count) by (nonlinear_arith)
            requires
                count > 0,
        ;
        assert(count * (pool / count) + pool % count == pool) by (nonlinear_arith)
            requires
                count > 0,
        ;
    }
}

/// Each request ends where the next one starts, and none ends beyond `total`.
pub proof fn lemma_allotment_within_total(requests: Seq<StackUnitDimension>, total: u32, i: int)
    requires
        0 <= i < requests.len(),
    ensures
        offset(requests, total, i + 1) == offset(requests, total, i) + allotment(
            requests,
            total,
            i,
        ),
        offset(requests, total, i + 1) <= total,
    decreases requests.len() - i,
{
    if i + 1 < requests.len() {
        lemma_allotment_within_total(requests, total, i + 1);
    } else {
        lemma_allotments_fill_total(requests, total);
    }
}

/// What the fixed requests before index `i` receive, all together.
pub open spec fn fixed_allotted(requests: Seq<StackUnitDimension>, total: u32, i: int) -> nat
    decreases i,
{
    if i <= 0 {
        0
    } else {
        fixed_allotted(requests, total, i - 1) + if requests[i - 1] is Pixel {
            allotment(requests, total, i - 1)
        } else {
            0nat
        }
    }
}

/// What the fixed requests before an index receive is what they ask for, as
/// far as `total` reaches.
proof fn lemma_fixed_allotted(requests: Seq<StackUnitDimension>, total: u32, i: int)
    requires
        0 <= i <= requests.len(),
    ensures
        fixed_allotted(requests, total, i) == fixed_taken(requests, total, i),
    decreases i,
{
    if i > 0 {
        lemma_fixed_allotted(requests, total, i - 1);
        lemma_prefix_step(requests, i - 1);
    } else {
        assert(requests.take(0) =~= Seq::<StackUnitDimension>::empty());
    }
}

/// However fixed and stretching requests are mixed, the fixed requests
/// receive no more than `total` together; each stretching request receives
/// what they leave of `total`, divided by the number of stretching requests
/// and rounded down, and one unit more if it is among the earliest of them,
/// as many as the division leaves over; and with a stretching request among
/// them the requests receive `total` together, exactly. Fixed requests that
/// fit into `total` receive what they ask for.
pub proof fn lemma_stack_shares(requests: Seq<StackUnitDimension>, total: u32)
    ensures
        fixed_allotted(requests, total, requests.len() as int) <= total,
        forall|i: int|
            0 <= i < requests.len() && #[trigger] requests[i] is Stretch ==> {
                let rest = (total - fixed_allotted(requests, total, requests.len() as int)) as nat;
                let count = stretch_count(requests);
                let rank = stretch_count(requests.take(i));
                allotment(requests, total, i) == rest / count + if rank < rest % count {
                    1nat
                } else {
                    0nat
                }
            },
        stretch_count(requests) > 0 ==> offset(requests, total, requests.len() as int) == total,
        fixed_total(requests) <= total ==> forall|i: int|
            0 <= i < requests.len() ==> (#[trigger] requests[i] matches StackUnitDimension::Pixel(
                units,
            ) ==> allotment(requests, total, i) == units),
{
    let n = requests.len() as int;
    assert(requests.take(n) =~= requests);
    lemma_allotments_fill_total(requests, total);
    lemma_fixed_allotted(requests, total, n);
    if fixed_total(requests) <= total {
        assert forall|i: int| 0 <= i < requests.len() implies (
        #[trigger] requests[i] matches StackUnitDimension::Pixel(units) ==> allotment(
            requests,
            total,
            i,
        ) == units) by {
            lemma_prefix_step(requests, i);
            lemma_prefix_counts_grow(requests, i + 1, n);
        }
    }
}

/// Shares `total` units of a stacking axis among `requests`, in their order.
pub fn compute_allotments(requests: &Vec<StackUnitDimension>, total: u32) -> (allotments: Vec<u32>)
    ensures
        allotments@.len() == requests@.len(),
        forall|i: int|
            0 <= i < requests@.len() ==> #[trigger] allotments@[i] as nat == allotment(
                requests@,
                total,
                i,
            ),
{
    let ghost all = requests@;
    let mut fixed: u32 = 0;
    let mut stretching: usize = 0;
    let mut i: usize = 0;
    while i < requests.len()
        invariant
            i <= requests.len(),
            all == requests@,
            fixed as nat == fixed_taken(all, total, i as int),
            stretching as nat == stretch_count(all.take(i as int)),
            stretching <= i,
        decreases requests.len() - i,
    {
        proof {
            lemma_prefix_step(all, i as int);
        }
        match requests[i] {
            StackUnitDimension::Pixel(units) => {
                let room: u32 = total - fixed;
                fixed = if units <= room {
                    fixed + units
                } else {
                    total
                };
            },
            StackUnitDimension::Stretch => {
                stretching = stretching + 1;
            },
        }
        i += 1;
    }
    proof {
        assert(all.take(i as int) =~= all);
    }
    let pool: u32 = total - fixed;
    let mut allotments: Vec<u32> = Vec::new();
    let mut taken: u32 = 0;
    let mut rank: usize = 0;
    let mut j: usize = 0;
    while j < requests.len()
        invariant
            j <= requests.len(),
            all == requests@,
            pool as nat == stretch_pool(all, total),
            stretching as nat == stretch_count(all),
            taken as nat == fixed_taken(all, total, j as int),
            rank as nat == stretch_count(all.take(j as int)),
            rank <= j,
            allotments@.len() == j,
            forall|k: int|
                0 <= k < j ==> #[trigger] allotments@[k] as nat == allotment(all, total, k),
        decreases requests.len() - j,
    {
        proof {
            lemma_prefix_step(all, j as int);
        }
        let given: u32 = match requests[j] {
            StackUnitDimension::Pixel(units) => {
                let room: u32 = total - taken;
                let given: u32 = if units <= room {
                    units
                } else {
                    room
                };
                taken = taken + given;
                given
            },
            StackUnitDimension::Stretch => {
                proof {
                    lemma_rank_below_count(all, j as int);
                }
                let count: u64 = stretching as u64;
                let share: u64 = pool as u64 / count;
                let spare: u64 = pool as u64 % count;
                let extra: u64 = if (rank as u64) < spare {
                    1
                } else {
                    0
                };
                proof {
                    let p = pool as nat;
                    let c = stretching as nat;
                    let r = rank as nat;
                    assert(p / c + (if r < p % c { 1nat } else { 0nat }) <= p) by (nonlinear_arith)
                        requires
                            c > 0,
                            r < c,
                    ;
                }
                rank = rank + 1;
                (share + extra) as u32
            },
        };
        allotments.push(given);
        j += 1;
    }
    allotments
}

/// The extent of a region along the axis of `orientation`.
pub open spec fn axis_extent(dimensions: Dimensions, orientation: Orientation) -> u32 {
    match orientation {
        Orientation::Horizontal => dimensions.width,
        Orientation::Vertical => dimensions.height,
    }
}

/// The region of the request at index `k` when `requests` are stacked along
/// `orientation` in the region of `dimensions` at `position`: it starts where
/// the request before it ends, is as long as its allotment, and spans the
/// region across.
pub open spec fn stack_box(
    requests: Seq<StackUnitDimension>,
    dimensions: Dimensions,
    position: Point,
    orientation: Orientation,
    k: int,
) -> Rectangle {
    let total = axis_extent(dimensions, orientation);
    match orientation {
        Orientation::Horizontal => Rectangle {
            position: Point((position.0 + offset(requests, total, k)) as u32, position.1),
            dimensions: Dimensions {
                width: allotment(requests, total, k) as u32,
                height: dimensions.height,
            },
        },
        Orientation::Vertical => Rectangle {
            position: Point(position.0, (position.1 + offset(requests, total, k)) as u32),
            dimensions: Dimensions {
                width: dimensions.width,
                height: allotment(requests, total, k) as u32,
            },
        },
    }
}

/// The regions of `requests` stacked along `orientation` in the region of
/// `dimensions` at `position`. None of them reaches outside that region.
pub fn stack_boxes(
    requests: &Vec<StackUnitDimension>,
    dimensions: Dimensions,
    position: Point,
    orientation: Orientation,
) -> (boxes: Vec<Rectangle>)
    requires
        (Rectangle { position, dimensions }).fits(),
    ensures
        boxes@.len() == requests@.len(),
        forall|k: int|
            0 <= k < requests@.len() ==> {
                &&& #[trigger] boxes@[k] == stack_box(
                    requests@,
                    dimensions,
                    position,
                    orientation,
                    k,
                )
                &&& boxes@[k].fits()
                &&& (Rectangle { position, dimensions }).encloses(boxes@[k])
            },
{
    let total: u32 = match orientation {
        Orientation::Horizontal => dimensions.width,
        Orientation::Vertical => dimensions.height,
    };
    let allotments: Vec<u32> = compute_allotments(requests, total);
    let mut boxes: Vec<Rectangle> = Vec::new();
    let mut start: u32 = 0;
    let mut k: usize = 0;
    while k < requests.len()
        invariant
            k <= requests.len(),
            allotments@.len() == requests@.len(),
            total == axis_extent(dimensions, orientation),
            (Rectangle { position, dimensions }).fits(),
            forall|i: int|
                0 <= i < requests@.len() ==> #[trigger] allotments@[i] as nat == allotment(
                    requests@,
                    total,
                    i,
                ),
            start as nat == offset(requests@, total, k as int),
            start <= total,
            boxes@.len() == k,
            forall|i: int|
                0 <= i < k ==> {
                    &&& #[trigger] boxes@[i] == stack_box(
                        requests@,
                        dimensions,
                        position,
                        orientation,
                        i,
                    )
                    &&& boxes@[i].fits()
                    &&& (Rectangle { position, dimensions }).encloses(boxes@[i])
                },
        decreases requests.len() - k,
    {
        let length: u32 = allotments[k];
        proof {
            lemma_allotment_within_total(requests@, total, k as int);
        }
        let region: Rectangle = match orientation {
            Orientation::Horizontal => Rectangle {
                position: Point(position.0 + start, position.1),
                dimensions: Dimensions { width: length, height: dimensions.height },
            },
            Orientation::Vertical => Rectangle {
                position: Point(position.0, position.1 + start),
                dimensions: Dimensions { width: dimensions.width, height: length },
            },
        };
        boxes.push(region);
        start = start + length;
        k += 1;
    }
    boxes
}

/// What the controls of the window are made of that starts at index `first`
/// of `children` and shows `length` of them.
pub open spec fn window_structures<T: DrawTarget>(
    children: Seq<Widget<T>>,
    first: int,
    length: int,
) -> Seq<Structure> {
    Seq::new(
        if length > 0 {
            length as nat
        } else {
            0nat
        },
        |k: int| children[first + k].control.structure(),
    )
}

/// What controls made of `shown` ask for when they are stacked along
/// `orientation` under `policies`: the policy given for a control, as far as
/// policies were given, and for a control without a policy the units of its
/// natural size along the axis.
pub open spec fn asked_for(
    policies: Seq<StackUnitDimension>,
    shown: Seq<Structure>,
    orientation: Orientation,
    fonts: &Fonts,
) -> Seq<StackUnitDimension> {
    Seq::new(
        shown.len(),
        |k: int|
            if k < policies.len() {
                policies[k]
            } else {
                StackUnitDimension::Pixel(axis_extent(natural_size(shown[k], fonts), orientation))
            },
    )
}

/// Whether `boxes` are the regions of controls made of `shown` that are
/// stacked along `orientation` under `policies` in the region of
/// `dimensions` at `position`: each control has the share of the axis that
/// its policy gives it, or that its natural size asks for where it has no
/// policy, and spans the region across.
pub open spec fn laid_out(
    boxes: Seq<Rectangle>,
    policies: Seq<StackUnitDimension>,
    shown: Seq<Structure>,
    dimensions: Dimensions,
    position: Point,
    orientation: Orientation,
    fonts: &Fonts,
) -> bool {
    &&& boxes.len() == shown.len()
    &&& forall|k: int|
        0 <= k < boxes.len() ==> #[trigger] boxes[k] == stack_box(
            asked_for(policies, shown, orientation, fonts),
            dimensions,
            position,
            orientation,
            k,
        )
}

/// Controls that all have a policy are laid out by their policies alone.
pub proof fn lemma_laid_out_by_policies(
    boxes: Seq<Rectangle>,
    policies: Seq<StackUnitDimension>,
    shown: Seq<Structure>,
    dimensions: Dimensions,
    position: Point,
    orientation: Orientation,
    fonts: &Fonts,
)
    requires
        laid_out(boxes, policies, shown, dimensions, position, orientation, fonts),
        policies.len() == shown.len(),
    ensures
        boxes.len() == policies.len(),
        forall|k: int|
            0 <= k < boxes.len() ==> #[trigger] boxes[k] == stack_box(
                policies,
                dimensions,
                position,
                orientation,
                k,
            ),
{
    assert(asked_for(policies, shown, orientation, fonts) =~= policies);
}

/// How many controls a window of `count` controls shows that starts at index
/// `first` of `total` controls.
pub open spec fn window_length(first: int, count: int, total: int) -> int {
    if first >= total {
        0
    } else if first + count >= total {
        total - first
    } else {
        count
    }
}

/// A window that starts among the controls ends `count` controls on, or with
/// the last control where fewer are left.
pub proof fn lemma_window_end(first: int, count: int, total: int)
    requires
        0 <= first <= total,
        0 <= count,
    ensures
        first + window_length(first, count, total) == smaller(
            (first + count) as nat,
            total as nat,
        ),
{
}

/// Whether each of `children` is well formed.
pub open spec fn all_wf<T: DrawTarget>(children: Seq<Widget<T>>) -> bool {
    forall|i: int| 0 <= i < children.len() ==> (#[trigger] children[i]).control.wf()
}

/// Whether each of `children` holds the command channel, all the way down.
pub open spec fn all_bound<T: DrawTarget>(children: Seq<Widget<T>>) -> bool {
    forall|i: int| 0 <= i < children.len() ==> (#[trigger] children[i]).control.bound()
}

/// Whether `after` holds the controls of `before` with the same bindings, all
/// of them well formed.
pub open spec fn same_controls<T: DrawTarget>(
    before: Seq<Widget<T>>,
    after: Seq<Widget<T>>,
) -> bool {
    &&& after.len() == before.len()
    &&& all_wf(after)
    &&& forall|i: int|
        0 <= i < after.len() ==> (#[trigger] after[i]).control.bound() == before[i].control.bound()
}

/// Controls that kept their bindings are all bound as far as they all were.
pub(crate) proof fn lemma_same_bindings<T: DrawTarget>(
    before: Seq<Widget<T>>,
    after: Seq<Widget<T>>,
)
    requires
        same_controls(before, after),
    ensures
        all_bound(after) == all_bound(before),
{
    assert forall|j: int| 0 <= j < before.len() implies (#[trigger] before[j]).control.bound()
        == after[j].control.bound() by {
        assert(after[j].control.bound() == before[j].control.bound());
    }
}

/// What each of `children` is made of, in their order.
pub open spec fn structures<T: DrawTarget>(children: Seq<Widget<T>>) -> Seq<Structure> {
    Seq::new(children.len(), |i: int| children[i].control.structure())
}

/// Whether each control of `after` is made of what it was made of in
/// `before`.
pub open spec fn same_structures<T: DrawTarget>(
    before: Seq<Widget<T>>,
    after: Seq<Widget<T>>,
) -> bool {
    forall|i: int|
        0 <= i < after.len() ==> (#[trigger] after[i]).control.structure()
            == before[i].control.structure()
}

/// What `children` are made of once what the player reports was written to
/// each of them.
pub open spec fn published_structures<T: DrawTarget>(
    children: Seq<Widget<T>>,
    status: &PlaybackStatus,
) -> Seq<Structure> {
    Seq::new(children.len(), |i: int| published(children[i].control.structure(), status))
}

/// What `children` are made of, without the scroll requests that wait in
/// them.
pub open spec fn settled_structures<T: DrawTarget>(children: Seq<Widget<T>>) -> Seq<Structure> {
    Seq::new(children.len(), |i: int| settled(children[i].control.structure()))
}

/// Each of the signals of controls that all ask only to be redrawn asks to be
/// redrawn.
pub(crate) proof fn lemma_all_redraw_joined(first: Seq<ControlSignal>, second: Seq<ControlSignal>)
    requires
        all_redraw(first),
        all_redraw(second),
    ensures
        all_redraw(first + second),
{
    assert forall|i: int| 0 <= i < (first + second).len() implies #[trigger] (first
        + second)[i] is Redraw by {
        if i < first.len() {
            assert((first + second)[i] == first[i]);
        } else {
            assert((first + second)[i] == second[i - first.len()]);
        }
    }
}

/// What `children` are made of after a heartbeat.
pub open spec fn beaten_structures<T: DrawTarget>(children: Seq<Widget<T>>) -> Seq<Structure> {
    Seq::new(children.len(), |i: int| beaten(children[i].control.structure()))
}

/// Controls that are made of what they were made of are, taken together,
/// made of what they were made of.
pub(crate) proof fn lemma_same_structures<T: DrawTarget>(
    before: Seq<Widget<T>>,
    after: Seq<Widget<T>>,
)
    requires
        after.len() == before.len(),
        same_structures(before, after),
    ensures
        structures(after) == structures(before),
{
    assert(structures(after) =~= structures(before));
}

/// Whether `after` also kept the bounding box of each control of `before`.
pub open spec fn same_boxes<T: DrawTarget>(before: Seq<Widget<T>>, after: Seq<Widget<T>>) -> bool {
    forall|i: int|
        0 <= i < after.len() ==> (#[trigger] after[i]).control.bounding_box()
            == before[i].control.bounding_box()
}

/// Renders the window of `count` controls that starts at index `first` of
/// `children`, stacked along `orientation` in the region of `dimensions` at
/// `position`. The control at place `k` of the window is laid out by
/// `policies[k]`; where there is no such policy, it takes its natural size
/// along the axis. The result holds the region of each control of the window.
/// Controls outside the window are left alone.
pub fn render_stack<T: DrawTarget>(
    target: &mut T,
    children: &mut Vec<Widget<T>>,
    first: usize,
    count: usize,
    dimensions: Dimensions,
    position: Point,
    orientation: Orientation,
    policies: &Vec<StackUnitDimension>,
    fonts: &Fonts,
) -> (boxes: Vec<Rectangle>)
    requires
        all_wf(old(children)@),
        (Rectangle { position, dimensions }).fits(),
    ensures
        same_controls(old(children)@, final(children)@),
        structures(final(children)@) == structures(old(children)@),
        boxes@.len() == window_length(first as int, count as int, old(children)@.len() as int),
        forall|i: int|
            0 <= i < final(children)@.len() && !(first <= i < first + boxes@.len())
                ==> #[trigger] final(children)@[i] == old(children)@[i],
        forall|k: int|
            0 <= k < boxes@.len() ==> {
                &&& recorded_in(
                    final(children)@[first + k].control.bounding_box(),
                    old(children)@[first + k].control.structure(),
                    #[trigger] boxes@[k],
                )
                &&& (Rectangle { position, dimensions }).encloses(boxes@[k])
            },
        laid_out(
            boxes@,
            policies@,
            window_structures(old(children)@, first as int, boxes@.len() as int),
            dimensions,
            position,
            orientation,
            fonts,
        ),
        drawn_within(old(target), final(target), Rectangle { position, dimensions }),
        shows(
            old(target),
            final(target),
            stacked_picture(
                structures(old(children)@),
                first as int,
                asked_for(
                    policies@,
                    window_structures(old(children)@, first as int, boxes@.len() as int),
                    orientation,
                    fonts,
                ),
                fonts,
                Rectangle { position, dimensions },
                orientation,
                boxes@.len() as int,
            ),
        ),
{
    let total: usize = children.len();
    let shown: usize = if first >= total {
        0
    } else if count >= total - first {
        total - first
    } else {
        count
    };
    let mut requests: Vec<StackUnitDimension> = Vec::new();
    let ghost asked = asked_for(
        policies@,
        window_structures(old(children)@, first as int, shown as int),
        orientation,
        fonts,
    );
    let mut k: usize = 0;
    while k < shown
        invariant
            k <= shown,
            shown == window_length(first as int, count as int, total as int),
            total == old(children)@.len(),
            same_controls(old(children)@, children@),
            same_structures(old(children)@, children@),
            same_boxes(old(children)@, children@),
            forall|i: int|
                0 <= i < children@.len() && !(first <= i < first + shown)
                    ==> #[trigger] children@[i] == old(children)@[i],
            requests@.len() == k,
            asked == asked_for(
                policies@,
                window_structures(old(children)@, first as int, shown as int),
                orientation,
                fonts,
            ),
            forall|j: int| 0 <= j < k ==> #[trigger] requests@[j] == asked[j],
        decreases shown - k,
    {
        if k < policies.len() {
            requests.push(policies[k]);
        } else {
            let natural: Dimensions = children[first + k].control.compute_natural_dimensions(fonts);
            let along: u32 = match orientation {
                Orientation::Horizontal => natural.width,
                Orientation::Vertical => natural.height,
            };
            requests.push(StackUnitDimension::Pixel(along));
        }
        k += 1;
    }
    proof {
        assert(requests@ =~= asked);
    }
    let boxes: Vec<Rectangle> = stack_boxes(&requests, dimensions, position, orientation);
    let ghost outer = Rectangle { position, dimensions };
    let mut r: usize = 0;
    while r < shown
        invariant
            r <= shown,
            shown == window_length(first as int, count as int, total as int),
            total == old(children)@.len(),
            same_controls(old(children)@, children@),
            same_structures(old(children)@, children@),
            forall|i: int|
                0 <= i < children@.len() && !(first <= i < first + shown)
                    ==> #[trigger] children@[i] == old(children)@[i],
            boxes@.len() == shown,
            requests@.len() == shown,
            outer == (Rectangle { position, dimensions }),
            forall|i: int|
                0 <= i < shown ==> {
                    &&& #[trigger] boxes@[i] == stack_box(
                        requests@,
                        dimensions,
                        position,
                        orientation,
                        i,
                    )
                    &&& boxes@[i].fits()
                    &&& outer.encloses(boxes@[i])
                },
            forall|i: int|
                0 <= i < r ==> recorded_in(
                    children@[first + i].control.bounding_box(),
                    old(children)@[first + i].control.structure(),
                    #[trigger] boxes@[i],
                ),
            drawn_within(old(target), target, outer),
            shows(
                old(target),
                target,
                stacked_picture(
                    structures(old(children)@),
                    first as int,
                    requests@,
                    fonts,
                    outer,
                    orientation,
                    r as int,
                ),
            ),
        decreases shown - r,
    {
        let region: Rectangle = boxes[r];
        let ghost before = *target;
        let ghost drawn = stacked_picture(
            structures(old(children)@),
            first as int,
            requests@,
            fonts,
            outer,
            orientation,
            r as int,
        );
        let ghost tree = children@[first + r].control.structure();
        children[first + r].control.render(target, region.dimensions, region.position, fonts);
        proof {
            lemma_drawn_within_chain(old(target), &before, target, outer, region, outer);
            assert(structures(old(children)@)[first + r] == tree);
            assert(region == Rectangle {
                position: region.position,
                dimensions: region.dimensions,
            });
            lemma_shows_joined(old(target), &before, target, drawn, picture(tree, fonts, region));
        }
        r += 1;
    }
    proof {
        lemma_same_structures(old(children)@, children@);
    }
    boxes
}

/// What `children` send, one after the other, when all of them are handed
/// `event`: what the first `n` of them send.
pub open spec fn broadcast_signals<T: DrawTarget>(
    children: Seq<Widget<T>>,
    event: Event,
    n: int,
) -> Seq<ControlSignal> decreases n, {
    if n <= 0 {
        Seq::empty()
    } else {
        broadcast_signals(children, event, n - 1) + children[n - 1].control.emitted(event)
    }
}

/// Hands `event` to each of `children`, in their order.
pub fn broadcast<T: DrawTarget>(children: &mut Vec<Widget<T>>, event: Event) -> (signals: Vec<
    ControlSignal,
>)
    requires
        all_wf(old(children)@),
    ensures
        same_controls(old(children)@, final(children)@),
        same_boxes(old(children)@, final(children)@),
        signals@ == broadcast_signals(old(children)@, event, old(children)@.len() as int),
        event is Touch ==> settled_structures(final(children)@) == settled_structures(
            old(children)@,
        ),
        event is Heartbeat ==> structures(final(children)@) == beaten_structures(old(children)@),
        event is Heartbeat ==> all_redraw(signals@),
{
    let mut signals: Vec<ControlSignal> = Vec::new();
    let mut i: usize = 0;
    while i < children.len()
        invariant
            i <= children.len(),
            same_controls(old(children)@, children@),
            same_boxes(old(children)@, children@),
            forall|j: int|
                i <= j < children@.len() ==> #[trigger] children@[j] == old(children)@[j],
            forall|j: int|
                0 <= j < i ==> if event is Touch {
                    settled((#[trigger] children@[j]).control.structure()) == settled(
                        old(children)@[j].control.structure(),
                    )
                } else {
                    children@[j].control.structure() == beaten(
                        old(children)@[j].control.structure(),
                    )
                },
            signals@ == broadcast_signals(old(children)@, event, i as int),
            event is Heartbeat ==> all_redraw(signals@),
        decreases children.len() - i,
    {
        let ghost so_far = signals@;
        let mut sent: Vec<ControlSignal> = children[i].control.on_event(event);
        proof {
            if event is Heartbeat {
                lemma_all_redraw_joined(so_far, sent@);
            }
        }
        signals.append(&mut sent);
        i += 1;
    }
    proof {
        if event is Touch {
            assert(settled_structures(children@) =~= settled_structures(old(children)@));
        } else {
            assert(structures(children@) =~= beaten_structures(old(children)@));
        }
    }
    signals
}

/// Hands what the player reports to each of `children`.
pub fn publish<T: DrawTarget>(children: &mut Vec<Widget<T>>, status: &PlaybackStatus)
    requires
        all_wf(old(children)@),
    ensures
        same_controls(old(children)@, final(children)@),
        same_boxes(old(children)@, final(children)@),
        structures(final(children)@) == published_structures(old(children)@, status),
{
    let mut i: usize = 0;
    while i < children.len()
        invariant
            i <= children.len(),
            same_controls(old(children)@, children@),
            same_boxes(old(children)@, children@),
            forall|j: int|
                0 <= j < i ==> (#[trigger] children@[j]).control.structure() == published(
                    old(children)@[j].control.structure(),
                    status,
                ),
            forall|j: int|
                i <= j < children@.len() ==> #[trigger] children@[j] == old(children)@[j],
        decreases children.len() - i,
    {
        children[i].control.on_status(status);
        i += 1;
    }
    proof {
        assert(structures(children@) =~= published_structures(old(children)@, status));
    }
}

/// What the controls of a window send when a touch at `point` is routed by
/// the regions they were rendered into: each of the first `n` controls of
/// the window whose region holds the point is handed the touch.
pub open spec fn routed_signals<T: DrawTarget>(
    children: Seq<Widget<T>>,
    boxes: Seq<Rectangle>,
    first: int,
    point: Point,
    n: int,
) -> Seq<ControlSignal>
    decreases n,
{
    if n <= 0 {
        Seq::empty()
    } else if boxes[n - 1].covers(point.0 as int, point.1 as int) {
        routed_signals(children, boxes, first, point, n - 1) + children[first + n
            - 1].control.emitted(Event::Touch(point))
    } else {
        routed_signals(children, boxes, first, point, n - 1)
    }
}

/// What `children` are made of once a touch at `point` was routed by the
/// regions `boxes` of the window that starts at index `first`: each control
/// of the window whose region holds the point is made of what the touch has
/// made of it, every other control of what it was made of.
pub open spec fn routed_structures<T: DrawTarget>(
    children: Seq<Widget<T>>,
    boxes: Seq<Rectangle>,
    first: int,
    point: Point,
) -> Seq<Structure> {
    Seq::new(
        children.len(),
        |i: int|
            if first <= i < first + boxes.len() && boxes[i - first].covers(
                point.0 as int,
                point.1 as int,
            ) {
                children[i].control.touched(point)
            } else {
                children[i].control.structure()
            },
    )
}

/// Routes a touch at `point` to the controls of the window that starts at
/// index `first` of `children` and was rendered into `boxes`.
pub fn route_touch<T: DrawTarget>(
    children: &mut Vec<Widget<T>>,
    boxes: &Vec<Rectangle>,
    first: usize,
    point: Point,
) -> (signals: Vec<ControlSignal>)
    requires
        all_wf(old(children)@),
        first + boxes@.len() <= old(children)@.len(),
    ensures
        same_controls(old(children)@, final(children)@),
        same_boxes(old(children)@, final(children)@),
        settled_structures(final(children)@) == settled_structures(old(children)@),
        structures(final(children)@) == routed_structures(
            old(children)@,
            boxes@,
            first as int,
            point,
        ),
        signals@ == routed_signals(
            old(children)@,
            boxes@,
            first as int,
            point,
            boxes@.len() as int,
        ),
{
    let mut signals: Vec<ControlSignal> = Vec::new();
    let mut k: usize = 0;
    while k < boxes.len()
        invariant
            k <= boxes.len(),
            first + boxes@.len() <= children@.len(),
            same_controls(old(children)@, children@),
            same_boxes(old(children)@, children@),
            forall|j: int|
                0 <= j < children@.len() ==> settled(
                    (#[trigger] children@[j]).control.structure(),
                ) == settled(old(children)@[j].control.structure()),
            forall|j: int|
                first + k <= j < children@.len() ==> #[trigger] children@[j] == old(children)@[j],
            forall|j: int|
                0 <= j < first + k && j < children@.len() ==> (
                #[trigger] children@[j]).control.structure() == routed_structures(
                    old(children)@,
                    boxes@,
                    first as int,
                    point,
                )[j],
            signals@ == routed_signals(old(children)@, boxes@, first as int, point, k as int),
        decreases boxes.len() - k,
    {
        if boxes[k].contains(point) {
            assert(first + k < children.len());
            let mut sent: Vec<ControlSignal> = children[first + k].control.on_event(
                Event::Touch(point),
            );
            signals.append(&mut sent);
        }
        k += 1;
    }
    proof {
        assert(settled_structures(children@) =~= settled_structures(old(children)@));
        assert(structures(children@) =~= routed_structures(
            old(children)@,
            boxes@,
            first as int,
            point,
        ));
    }
    signals
}

} // verus!
