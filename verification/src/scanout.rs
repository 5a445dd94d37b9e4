//! Bookkeeping for KMS scanout: the row pitch of the readback buffer, the
//! choice of a CRTC and a mode for each connector, the double-buffer flip
//! state of each output, and the row copy from a rendered frame into a
//! scanout buffer. Handles and flags are the plain numbers the kernel uses.

use vstd::prelude::*;

verus! {

/// The row pitch of a readback buffer: `width` pixels of 4 bytes, rounded up
/// to a multiple of `align`.
pub open spec fn spec_padded_bytes_per_row(width: int, align: int) -> int {
    ((width * 4 + align - 1) / align) * align
}

/// The row pitch of a `width`-pixel BGRA frame when rows must start at a
/// multiple of `align` bytes (wgpu's `COPY_BYTES_PER_ROW_ALIGNMENT`).
pub fn padded_bytes_per_row(width: u32, align: u32) -> (r: u32)
    requires
        align > 0,
        width * 4 <= u32::MAX,
        spec_padded_bytes_per_row(width as int, align as int) <= u32::MAX,
    ensures
        r == spec_padded_bytes_per_row(width as int, align as int),
{
    let unpadded = width * 4;
    let q = unpadded / align;
    let rem = unpadded % align;
    let rows = if rem > 0 { q + 1 } else { q };
    proof {
        let w = unpadded as int;
        let a = align as int;
        assert(w == a * q + rem) by (nonlinear_arith)
            requires
                a > 0,
                q == w / a,
                rem == w % a,
        ;
        let r2 = if rem > 0 { rem - 1 } else { a - 1 };
        assert(w + a - 1 == rows * a + r2) by (nonlinear_arith)
            requires
                w == a * q + rem,
                rows == (if rem > 0 { q + 1 } else { q as int }),
                r2 == (if rem > 0 { rem - 1 } else { a - 1 }),
                0 <= rem < a,
        ;
        vstd::arithmetic::div_mod::lemma_fundamental_div_mod_converse(
            w + a - 1,
            a,
            rows as int,
            if rem > 0 { rem - 1 } else { a - 1 },
        );
    }
    assert(rows * align <= u32::MAX);
    rows * align
}

/// The padded pitch holds a whole row, wastes less than one alignment unit,
/// and is itself aligned.
pub proof fn lemma_padded_row_fits(width: nat, align: nat)
    requires
        align > 0,
    ensures
        spec_padded_bytes_per_row(width as int, align as int) >= width * 4,
        spec_padded_bytes_per_row(width as int, align as int) < width * 4 + align,
        spec_padded_bytes_per_row(width as int, align as int) % (align as int) == 0,
{
    let w = width * 4;
    let a = align as int;
    let q = (w + a - 1) / a;
    vstd::arithmetic::div_mod::lemma_fundamental_div_mod(w + a - 1, a);
    assert((q * a) % a == 0) by (nonlinear_arith)
        requires
            a > 0,
    ;
    assert(q * a == a * q) by (nonlinear_arith);
}

/// The refresh rate to report for a mode whose `vrefresh` is `v`: 60 Hz
/// when the mode does not say.
pub fn refresh_rate(vrefresh: u32) -> (r: u32)
    ensures
        r == (if vrefresh == 0 { 60 } else { vrefresh }),
{
    if vrefresh == 0 {
        60
    } else {
        vrefresh
    }
}

/// The first CRTC of `list` that is not in `used`.
pub open spec fn first_free_in(list: Seq<u32>, used: Seq<u32>) -> Option<u32>
    decreases list.len(),
{
    if list.len() == 0 {
        None
    } else if !used.contains(list[0]) {
        Some(list[0])
    } else {
        first_free_in(list.drop_first(), used)
    }
}

/// The first CRTC not in `used`, in encoder order and then in the order of
/// each encoder's list.
pub open spec fn first_free(cands: Seq<Seq<u32>>, used: Seq<u32>) -> Option<u32>
    decreases cands.len(),
{
    if cands.len() == 0 {
        None
    } else {
        match first_free_in(cands[0], used) {
            Some(c) => Some(c),
            None => first_free(cands.drop_first(), used),
        }
    }
}

/// The CRTC picked for a connector whose current encoder drives `current`
/// and whose encoders can use `cands`, with `used` already taken.
pub open spec fn spec_choose_crtc(current: Option<u32>, cands: Seq<Seq<u32>>, used: Seq<u32>) -> Option<u32> {
    match current {
        Some(c) => if !used.contains(c) {
            Some(c)
        } else {
            first_free(cands, used)
        },
        None => first_free(cands, used),
    }
}

/// The candidate lists of a probe as sequences.
pub open spec fn lists_view(v: Seq<Vec<u32>>) -> Seq<Seq<u32>> {
    v.map_values(|l: Vec<u32>| l@)
}

/// Picks a CRTC for a connector: the one its current encoder drives
/// (`current`) when that one is free, else the first free CRTC compatible
/// with one of its encoders (`candidates`, per encoder, in order). `None`
/// when every candidate is in `used`.
pub fn choose_crtc(current: Option<u32>, candidates: &Vec<Vec<u32>>, used: &Vec<u32>) -> (r: Option<u32>)
    ensures
        r == spec_choose_crtc(current, lists_view(candidates@), used@),
{
    let ghost cands = lists_view(candidates@);
    if let Some(c) = current {
        if !contains(used, c) {
            return Some(c);
        }
    }
    let mut i: usize = 0;
    assert(cands.subrange(0, cands.len() as int) =~= cands);
    while i < candidates.len()
        invariant
            cands == lists_view(candidates@),
            i <= cands.len(),
            spec_choose_crtc(current, cands, used@) == first_free(
                cands.subrange(i as int, cands.len() as int),
                used@,
            ),
        decreases candidates@.len() - i,
    {
        let list = &candidates[i];
        let ghost rest = cands.subrange(i as int, cands.len() as int);
        assert(rest[0] == list@);
        assert(rest.drop_first() =~= cands.subrange(i + 1, cands.len() as int));
        let mut j: usize = 0;
        assert(list@.subrange(0, list@.len() as int) =~= list@);
        while j < list.len()
            invariant
                cands == lists_view(candidates@),
                spec_choose_crtc(current, cands, used@) == match first_free_in(list@, used@) {
                    Some(c) => Some(c),
                    None => first_free(cands.subrange(i + 1, cands.len() as int), used@),
                },
                i < cands.len(),
                list@ == cands[i as int],
                j <= list@.len(),
                first_free_in(list@, used@) == first_free_in(
                    list@.subrange(j as int, list@.len() as int),
                    used@,
                ),
            decreases list@.len() - j,
        {
            let ghost tail = list@.subrange(j as int, list@.len() as int);
            assert(tail.drop_first() =~= list@.subrange(j + 1, list@.len() as int));
            let c = list[j];
            if !contains(used, c) {
                return Some(c);
            }
            j = j + 1;
        }
        assert(list@.subrange(j as int, list@.len() as int) =~= Seq::<u32>::empty());
        i = i + 1;
    }
    assert(cands.subrange(i as int, cands.len() as int) =~= Seq::<Seq<u32>>::empty());
    None
}

/// Whether `v` holds `x`.
fn contains(v: &Vec<u32>, x: u32) -> (r: bool)
    ensures
        r == v@.contains(x),
{
    let mut i: usize = 0;
    while i < v.len()
        invariant
            i <= v@.len(),
            forall|k: int| 0 <= k < i ==> v@[k] != x,
        decreases v@.len() - i,
    {
        if v[i] == x {
            return true;
        }
        i = i + 1;
    }
    false
}

/// The index of the first `true` in `p`.
pub open spec fn first_true(p: Seq<bool>) -> Option<nat>
    decreases p.len(),
{
    if p.len() == 0 {
        None
    } else if p[0] {
        Some(0)
    } else {
        match first_true(p.drop_first()) {
            Some(i) => Some(i + 1),
            None => None,
        }
    }
}

/// The mode picked among modes flagged `preferred` or not: the first
/// preferred one, else the first one, else none.
pub open spec fn spec_pick_mode(preferred: Seq<bool>) -> Option<nat> {
    match first_true(preferred) {
        Some(i) => Some(i),
        None => if preferred.len() > 0 {
            Some(0)
        } else {
            None
        },
    }
}

/// Picks a connector's mode among those flagged `preferred` or not: the
/// first preferred one, else the first one; `None` when there is none.
pub fn pick_mode(preferred: &Vec<bool>) -> (r: Option<usize>)
    ensures
        match r {
            Some(i) => spec_pick_mode(preferred@) == Some(i as nat),
            None => spec_pick_mode(preferred@) is None,
        },
{
    let mut i: usize = 0;
    assert(preferred@.subrange(0, preferred@.len() as int) =~= preferred@);
    while i < preferred.len()
        invariant
            i <= preferred@.len(),
            preferred@.subrange(0, preferred@.len() as int) =~= preferred@,
            first_true(preferred@) == (match first_true(
                preferred@.subrange(i as int, preferred@.len() as int),
            ) {
                Some(k) => Some((k + i) as nat),
                None => None,
            }),
        decreases preferred@.len() - i,
    {
        let ghost tail = preferred@.subrange(i as int, preferred@.len() as int);
        assert(tail.drop_first() =~= preferred@.subrange(i + 1, preferred@.len() as int));
        if preferred[i] {
            return Some(i);
        }
        i = i + 1;
    }
    assert(preferred@.subrange(i as int, preferred@.len() as int) =~= Seq::<bool>::empty());
    if preferred.len() > 0 {
        Some(0)
    } else {
        None
    }
}

/// The first `true`, when there is one, is a `true` with none before it.
pub proof fn lemma_first_true(p: Seq<bool>)
    ensures
        first_true(p) matches Some(i) ==> (i < p.len() && p[i as int] && forall|k: int|
            0 <= k < i ==> !p[k]),
        first_true(p) is None ==> forall|k: int| 0 <= k < p.len() ==> !p[k],
    decreases p.len(),
{
    if p.len() > 0 && !p[0] {
        let t = p.drop_first();
        lemma_first_true(t);
        assert forall|k: int| 1 <= k < p.len() implies p[k] == t[k - 1] by {}
    }
}

/// A chosen CRTC is never one already in use.
pub proof fn lemma_chosen_crtc_is_free(current: Option<u32>, cands: Seq<Seq<u32>>, used: Seq<u32>)
    ensures
        spec_choose_crtc(current, cands, used) matches Some(c) ==> !used.contains(c),
{
    lemma_first_free_is_free(cands, used);
}

proof fn lemma_first_free_in_is_free(list: Seq<u32>, used: Seq<u32>)
    ensures
        first_free_in(list, used) matches Some(c) ==> !used.contains(c),
    decreases list.len(),
{
    if list.len() > 0 {
        lemma_first_free_in_is_free(list.drop_first(), used);
    }
}

proof fn lemma_first_free_is_free(cands: Seq<Seq<u32>>, used: Seq<u32>)
    ensures
        first_free(cands, used) matches Some(c) ==> !used.contains(c),
    decreases cands.len(),
{
    if cands.len() > 0 {
        lemma_first_free_in_is_free(cands[0], used);
        lemma_first_free_is_free(cands.drop_first(), used);
    }
}

/// What is known of a connector before it is driven: the CRTC its current
/// encoder drives (if any), the CRTCs each of its encoders can use, and for
/// each of its modes whether the mode is the preferred one.
#[derive(Clone, Debug)]
pub struct ConnectorProbe {
    pub current_crtc: Option<u32>,
    pub candidate_crtcs: Vec<Vec<u32>>,
    pub preferred_modes: Vec<bool>,
}

/// A connector to drive: its index among the probes, its CRTC and the
/// index of its mode.
#[derive(Clone, Copy, PartialEq, Eq, Debug)]
pub struct OutputPlan {
    pub connector: usize,
    pub crtc: u32,
    pub mode: usize,
}

/// Why no display could be set up.
#[derive(Clone, Copy, PartialEq, Eq, Debug)]
pub enum PlanError {
    /// The connector at index `connector` of the card at index `card` got a
    /// CRTC but has no mode.
    NoModes { card: usize, connector: usize },
    /// No connected connector on any card could get a CRTC.
    NoUsableCrtc,
}

/// The outputs planned for the first `n` probes of the card at index `card`,
/// and the CRTCs taken so far. A connector without a free CRTC is skipped;
/// one with a CRTC but no mode ends the plan with an error.
pub open spec fn plan_prefix(card: usize, probes: Seq<ConnectorProbe>, n: nat) -> (
    Result<Seq<OutputPlan>, PlanError>,
    Seq<u32>,
)
    decreases n,
{
    if n == 0 {
        (Ok(Seq::empty()), Seq::empty())
    } else {
        let (prev, used) = plan_prefix(card, probes, (n - 1) as nat);
        let p = probes[n - 1];
        match prev {
            Err(e) => (Err(e), used),
            Ok(outs) => match spec_choose_crtc(
                p.current_crtc,
                lists_view(p.candidate_crtcs@),
                used,
            ) {
                None => (Ok(outs), used),
                Some(c) => match spec_pick_mode(p.preferred_modes@) {
                    None => (Err(PlanError::NoModes { card, connector: (n - 1) as usize }), used.push(c)),
                    Some(m) => (
                        Ok(outs.push(OutputPlan { connector: (n - 1) as usize, crtc: c, mode: m as usize })),
                        used.push(c),
                    ),
                },
            },
        }
    }
}

/// The outputs to drive for the connected connectors `probes` of the card at
/// index `card`, in order; none when no connector can get a free CRTC.
pub open spec fn spec_plan_outputs(card: usize, probes: Seq<ConnectorProbe>) -> Result<
    Seq<OutputPlan>,
    PlanError,
> {
    plan_prefix(card, probes, probes.len()).0
}

proof fn lemma_plan_error_sticks(card: usize, probes: Seq<ConnectorProbe>, k: nat, n: nat)
    requires
        k <= n,
        plan_prefix(card, probes, k).0 is Err,
    ensures
        plan_prefix(card, probes, n).0 == plan_prefix(card, probes, k).0,
    decreases n - k,
{
    if k < n {
        lemma_plan_error_sticks(card, probes, k, (n - 1) as nat);
    }
}

/// Decides which connectors of the card at index `card` to drive, with which
/// CRTC and mode, walking its connected connectors in order and never giving
/// one CRTC to two of them.
pub fn plan_outputs(card: usize, probes: &Vec<ConnectorProbe>) -> (r: Result<Vec<OutputPlan>, PlanError>)
    ensures
        match r {
            Ok(v) => spec_plan_outputs(card, probes@) == Ok::<Seq<OutputPlan>, PlanError>(v@),
            Err(e) => spec_plan_outputs(card, probes@) == Err::<Seq<OutputPlan>, PlanError>(e),
        },
{
    let mut outs: Vec<OutputPlan> = Vec::new();
    let mut used: Vec<u32> = Vec::new();
    let mut i: usize = 0;
    while i < probes.len()
        invariant
            i <= probes@.len(),
            plan_prefix(card, probes@, i as nat) == (Ok::<Seq<OutputPlan>, PlanError>(outs@), used@),
        decreases probes@.len() - i,
    {
        let p = &probes[i];
        let ghost before = plan_prefix(card, probes@, i as nat);
        assert(plan_prefix(card, probes@, (i + 1) as nat) == {
            let (prev, u) = before;
            match prev {
                Err(e) => (Err(e), u),
                Ok(o) => match spec_choose_crtc(p.current_crtc, lists_view(p.candidate_crtcs@), u) {
                    None => (Ok(o), u),
                    Some(c) => match spec_pick_mode(p.preferred_modes@) {
                        None => (Err(PlanError::NoModes { card, connector: i }), u.push(c)),
                        Some(m) => (
                            Ok(o.push(OutputPlan { connector: i, crtc: c, mode: m as usize })),
                            u.push(c),
                        ),
                    },
                },
            }
        });
        match choose_crtc(p.current_crtc, &p.candidate_crtcs, &used) {
            None => {},
            Some(c) => {
                used.push(c);
                match pick_mode(&p.preferred_modes) {
                    None => {
                        proof {
                            lemma_plan_error_sticks(card, probes@, (i + 1) as nat, probes@.len());
                        }
                        return Err(PlanError::NoModes { card, connector: i });
                    },
                    Some(m) => {
                        outs.push(OutputPlan { connector: i, crtc: c, mode: m });
                    },
                }
            },
        }
        i = i + 1;
    }
    Ok(outs)
}

/// Planned outputs never share a CRTC, and every planned CRTC is among the
/// CRTCs taken.
pub proof fn lemma_planned_crtcs_distinct(card: usize, probes: Seq<ConnectorProbe>, n: nat)
    requires
        n <= probes.len(),
    ensures
        plan_prefix(card, probes, n).0 matches Ok(outs) ==> (forall|a: int, b: int|
            0 <= a < b < outs.len() ==> outs[a].crtc != outs[b].crtc) && (forall|a: int|
            0 <= a < outs.len() ==> plan_prefix(card, probes, n).1.contains(#[trigger] outs[a].crtc)),
    decreases n,
{
    if n > 0 {
        let m = (n - 1) as nat;
        lemma_planned_crtcs_distinct(card, probes, m);
        let (prev, used) = plan_prefix(card, probes, m);
        let p = probes[m as int];
        lemma_chosen_crtc_is_free(p.current_crtc, lists_view(p.candidate_crtcs@), used);
        if let Ok(outs) = prev {
            if let Some(c) = spec_choose_crtc(p.current_crtc, lists_view(p.candidate_crtcs@), used) {
                let used2 = used.push(c);
                assert forall|a: int| 0 <= a < outs.len() implies used2.contains(#[trigger] outs[a].crtc) by {
                    let k = choose|k: int| 0 <= k < used.len() && used[k] == outs[a].crtc;
                    assert(used2[k] == used[k]);
                }
                assert(used2[used.len() as int] == c);
            }
        }
    }
}

/// The plans of the first `n` cards, each planned on its own: the first
/// card whose plan fails ends them with its error.
pub open spec fn cards_prefix(cards: Seq<Vec<ConnectorProbe>>, n: nat) -> Result<
    Seq<Seq<OutputPlan>>,
    PlanError,
>
    decreases n,
{
    if n == 0 {
        Ok(Seq::empty())
    } else {
        match cards_prefix(cards, (n - 1) as nat) {
            Err(e) => Err(e),
            Ok(plans) => match spec_plan_outputs((n - 1) as usize, cards[n - 1]@) {
                Err(e) => Err(e),
                Ok(outs) => Ok(plans.push(outs)),
            },
        }
    }
}

/// The outputs to drive on every card, card by card: an error when a card's
/// plan fails, or when no card has a single output to drive.
pub open spec fn spec_plan_cards(cards: Seq<Vec<ConnectorProbe>>) -> Result<
    Seq<Seq<OutputPlan>>,
    PlanError,
> {
    match cards_prefix(cards, cards.len()) {
        Err(e) => Err(e),
        Ok(plans) => if forall|k: int| 0 <= k < plans.len() ==> (#[trigger] plans[k]).len() == 0 {
            Err(PlanError::NoUsableCrtc)
        } else {
            Ok(plans)
        },
    }
}

/// The views of a list of plans.
pub open spec fn plans_view(plans: Seq<Vec<OutputPlan>>) -> Seq<Seq<OutputPlan>> {
    plans.map_values(|v: Vec<OutputPlan>| v@)
}

proof fn lemma_cards_error_sticks(cards: Seq<Vec<ConnectorProbe>>, k: nat, n: nat)
    requires
        k <= n,
        cards_prefix(cards, k) is Err,
    ensures
        cards_prefix(cards, n) == cards_prefix(cards, k),
    decreases n - k,
{
    if k < n {
        lemma_cards_error_sticks(cards, k, (n - 1) as nat);
    }
}

/// Plans the outputs of every card, in order. Each card's connectors get
/// CRTCs of that card alone; setting up fails when a card's plan fails, or
/// when not one connected connector of any card can be driven.
pub fn plan_cards(cards: &Vec<Vec<ConnectorProbe>>) -> (r: Result<Vec<Vec<OutputPlan>>, PlanError>)
    ensures
        match r {
            Ok(v) => spec_plan_cards(cards@) == Ok::<Seq<Seq<OutputPlan>>, PlanError>(plans_view(v@)),
            Err(e) => spec_plan_cards(cards@) == Err::<Seq<Seq<OutputPlan>>, PlanError>(e),
        },
{
    let mut plans: Vec<Vec<OutputPlan>> = Vec::new();
    let mut any: bool = false;
    let mut k: usize = 0;
    assert(plans_view(plans@) =~= Seq::<Seq<OutputPlan>>::empty());
    while k < cards.len()
        invariant
            k <= cards@.len(),
            cards_prefix(cards@, k as nat) == Ok::<Seq<Seq<OutputPlan>>, PlanError>(plans_view(plans@)),
            plans@.len() == k,
            any <==> exists|j: int| 0 <= j < k && (#[trigger] plans@[j])@.len() > 0,
        decreases cards@.len() - k,
    {
        match plan_outputs(k, &cards[k]) {
            Err(e) => {
                proof {
                    lemma_cards_error_sticks(cards@, (k + 1) as nat, cards@.len());
                }
                return Err(e);
            },
            Ok(outs) => {
                let ghost old_plans = plans@;
                let nonempty = outs.len() > 0;
                plans.push(outs);
                proof {
                    assert(plans_view(plans@) =~= plans_view(old_plans).push(plans@[k as int]@));
                    if nonempty {
                        assert(plans@[k as int]@.len() > 0);
                    }
                    assert forall|j: int| 0 <= j < k implies plans@[j] == old_plans[j] by {}
                }
                any = any || nonempty;
            },
        }
        k = k + 1;
    }
    proof {
        let pv = plans_view(plans@);
        assert forall|j: int| 0 <= j < pv.len() implies pv[j] == plans@[j]@ by {}
        if any {
            let j = choose|j: int| 0 <= j < k && (#[trigger] plans@[j])@.len() > 0;
            assert(pv[j].len() > 0);
            assert(!(forall|i: int| 0 <= i < pv.len() ==> (#[trigger] pv[i]).len() == 0));
        }
        assert(cards_prefix(cards@, cards@.len()) == Ok::<Seq<Seq<OutputPlan>>, PlanError>(pv));
    }
    if any {
        Ok(plans)
    } else {
        Err(PlanError::NoUsableCrtc)
    }
}

/// A CPU copy of a rendered frame whose rows are `bytes_per_row` apart.
#[derive(Clone, Debug)]
pub struct FrameReadback {
    pub data: Vec<u8>,
    pub bytes_per_row: u32,
}

/// Which of an output's two scanout buffers is on screen, and whether the
/// first frame is still to come (it is shown with a mode set, later ones
/// with a page flip).
pub struct FlipState {
    front: usize,
    first_present: bool,
}

impl FlipState {
    /// The buffer on screen.
    pub closed spec fn spec_front(&self) -> nat {
        self.front as nat
    }

    /// Whether no frame has been presented yet.
    pub closed spec fn spec_first_present(&self) -> bool {
        self.first_present
    }

    /// The flip state's invariant: a buffer index is 0 or 1.
    pub open spec fn wf(&self) -> bool {
        self.spec_front() < 2
    }

    /// State after the mode set: buffer 0 on screen, no frame presented.
    pub fn new() -> (r: Self)
        ensures
            r.wf(),
            r.spec_front() == 0,
            r.spec_first_present(),
    {
        FlipState { front: 0, first_present: true }
    }

    /// The buffer to fill next: the one not on screen.
    pub fn back(&self) -> (r: usize)
        requires
            self.wf(),
        ensures
            r == 1 - self.spec_front(),
    {
        1 - self.front
    }

    /// Whether the next frame must be shown by setting the CRTC again rather
    /// than by a page flip.
    pub fn needs_mode_set(&self) -> (r: bool)
        ensures
            r == self.spec_first_present(),
    {
        self.first_present
    }

    /// Records that the back buffer is now on screen.
    pub fn presented(&mut self)
        requires
            old(self).wf(),
        ensures
            final(self).wf(),
            final(self).spec_front() == 1 - old(self).spec_front(),
            !final(self).spec_first_present(),
    {
        self.front = 1 - self.front;
        self.first_present = false;
    }
}

/// The bytes copied per row: the shorter of the two strides.
pub open spec fn row_bytes(dst_stride: int, src_stride: int) -> int {
    if dst_stride < src_stride {
        dst_stride
    } else {
        src_stride
    }
}

/// Byte `k` of a scanout buffer after the first `rows` rows of `src` were
/// copied into `old_dst` (row `y` of a buffer starts at `y * stride`).
pub open spec fn copied_byte(
    old_dst: Seq<u8>,
    src: Seq<u8>,
    dst_stride: int,
    src_stride: int,
    rows: int,
    k: int,
) -> u8 {
    if dst_stride > 0 && k / dst_stride < rows && k % dst_stride < row_bytes(dst_stride, src_stride) {
        src[(k / dst_stride) * src_stride + k % dst_stride]
    } else {
        old_dst[k]
    }
}

/// Copies `height` rows of `src` (rows `src_stride` bytes apart) into `dst`
/// (rows `dst_stride` bytes apart), as many bytes per row as the shorter
/// stride holds.
pub fn copy_rows(dst: &mut [u8], dst_stride: usize, src: &[u8], src_stride: usize, height: usize)
    requires
        height == 0 || (height - 1) * dst_stride + row_bytes(dst_stride as int, src_stride as int)
            <= old(dst)@.len(),
        height == 0 || (height - 1) * src_stride + row_bytes(dst_stride as int, src_stride as int)
            <= src@.len(),
    ensures
        final(dst)@.len() == old(dst)@.len(),
        forall|k: int|
            0 <= k < old(dst)@.len() ==> #[trigger] final(dst)@[k] == copied_byte(
                old(dst)@,
                src@,
                dst_stride as int,
                src_stride as int,
                height as int,
                k,
            ),
{
    let rb = if dst_stride < src_stride { dst_stride } else { src_stride };
    let ghost old_dst = dst@;
    let ghost ds = dst_stride as int;
    let ghost ss = src_stride as int;
    let mut y: usize = 0;
    while y < height
        invariant
            old_dst == old(dst)@,
            ds == dst_stride,
            ss == src_stride,
            rb == row_bytes(ds, ss),
            y <= height,
            dst@.len() == old_dst.len(),
            height == 0 || (height - 1) * ds + rb <= old_dst.len(),
            height == 0 || (height - 1) * ss + rb <= src@.len(),
            forall|k: int|
                0 <= k < old_dst.len() ==> #[trigger] dst@[k] == copied_byte(
                    old_dst,
                    src@,
                    ds,
                    ss,
                    y as int,
                    k,
                ),
        decreases height - y,
    {
        let dst_len = dst.len();
        let src_len = src.len();
        proof {
            vstd::arithmetic::mul::lemma_mul_inequality(y as int, (height - 1) as int, ds);
            vstd::arithmetic::mul::lemma_mul_inequality(y as int, (height - 1) as int, ss);
            assert(y * ds + rb <= dst_len);
            assert(y * ss + rb <= src_len);
        }
        let dst_row = y * dst_stride;
        let src_row = y * src_stride;
        let mut b: usize = 0;
        while b < rb
            invariant
                old_dst == old(dst)@,
                ds == dst_stride,
                ss == src_stride,
                rb == row_bytes(ds, ss),
                y < height,
                b <= rb,
                dst_row == y * ds,
                src_row == y * ss,
                dst_row + rb <= old_dst.len(),
                src_row + rb <= src@.len(),
                dst_row + rb <= dst_len,
                src_row + rb <= src_len,
                dst@.len() == old_dst.len(),
                forall|k: int|
                    0 <= k < old_dst.len() ==> #[trigger] dst@[k] == if ds > 0 && k / ds == y && k
                        % ds < b {
                        src@[y * ss + k % ds]
                    } else {
                        copied_byte(old_dst, src@, ds, ss, y as int, k)
                    },
            decreases rb - b,
        {
            let ghost before = dst@;
            dst[dst_row + b] = src[src_row + b];
            proof {
                let p = dst_row + b;
                vstd::arithmetic::div_mod::lemma_fundamental_div_mod_converse(
                    p as int,
                    ds,
                    y as int,
                    b as int,
                );
                assert forall|k: int| 0 <= k < old_dst.len() implies #[trigger] dst@[k] == if ds > 0
                    && k / ds == y && k % ds < b + 1 {
                    src@[y * ss + k % ds]
                } else {
                    copied_byte(old_dst, src@, ds, ss, y as int, k)
                } by {
                    if k != p {
                        assert(dst@[k] == before[k]);
                        if ds > 0 && k / ds == y && k % ds == b {
                            vstd::arithmetic::div_mod::lemma_fundamental_div_mod(k, ds);
                            assert(k == ds * y + b);
                            assert(ds * y == y * ds) by (nonlinear_arith);
                        }
                    }
                }
            }
            b = b + 1;
        }
        proof {
            assert forall|k: int| 0 <= k < old_dst.len() implies #[trigger] dst@[k] == copied_byte(
                old_dst,
                src@,
                ds,
                ss,
                y + 1,
                k,
            ) by {
                if ds > 0 && k / ds == y && k % ds < rb {
                    assert((k / ds) * ss == y * ss);
                }
            }
        }
        y = y + 1;
    }
}

} // verus!
