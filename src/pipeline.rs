//! The multi-strategy decode pipeline: a fixed catalogue of preprocessing
//! strategies tried in priority order against a QR detector, with early exit
//! and deduplication of decoded contents.
use vstd::prelude::*;
use crate::codes::{QrCodeResult, QrCodeType, result_wf};
use crate::filters::{luma_image, to_luma};
use crate::frame::{CapturedFrame, frame_wf};

verus! {

/// The filter a strategy applies after scaling.
#[derive(Debug, Clone, Copy, PartialEq, Eq, Structural)]
pub enum PreprocessMethod {
    Plain,
    ContrastBoost,
    Brightness,
    Sharpen,
    Invert,
}

/// One preprocessing strategy: scale by `scale_num / scale_den`, then filter.
#[derive(Debug, Clone, Copy, PartialEq, Eq, Structural)]
pub struct Strategy {
    pub scale_num: u32,
    pub scale_den: u32,
    pub method: PreprocessMethod,
}

/// The number of strategies in the catalogue.
pub const STRATEGY_COUNT: usize = 9;

pub open spec fn strat(num: u32, den: u32, method: PreprocessMethod) -> Strategy {
    Strategy { scale_num: num, scale_den: den, method }
}

/// The strategies in priority order, cheapest and most likely first.
pub open spec fn catalog() -> Seq<Strategy> {
    seq![
        strat(1, 1, PreprocessMethod::Plain),
        strat(1, 1, PreprocessMethod::ContrastBoost),
        strat(1, 1, PreprocessMethod::Brightness),
        strat(2, 1, PreprocessMethod::Plain),
        strat(1, 1, PreprocessMethod::Sharpen),
        strat(3, 2, PreprocessMethod::ContrastBoost),
        strat(1, 2, PreprocessMethod::ContrastBoost),
        strat(3, 1, PreprocessMethod::ContrastBoost),
        strat(1, 1, PreprocessMethod::Invert),
    ]
}

/// The strategy of priority `i` (counted from zero).
pub fn strategy_at(i: usize) -> (s: Strategy)
    requires
        i < STRATEGY_COUNT,
    ensures
        s == catalog()[i as int],
{
    if i == 0 {
        Strategy { scale_num: 1, scale_den: 1, method: PreprocessMethod::Plain }
    } else if i == 1 {
        Strategy { scale_num: 1, scale_den: 1, method: PreprocessMethod::ContrastBoost }
    } else if i == 2 {
        Strategy { scale_num: 1, scale_den: 1, method: PreprocessMethod::Brightness }
    } else if i == 3 {
        Strategy { scale_num: 2, scale_den: 1, method: PreprocessMethod::Plain }
    } else if i == 4 {
        Strategy { scale_num: 1, scale_den: 1, method: PreprocessMethod::Sharpen }
    } else if i == 5 {
        Strategy { scale_num: 3, scale_den: 2, method: PreprocessMethod::ContrastBoost }
    } else if i == 6 {
        Strategy { scale_num: 1, scale_den: 2, method: PreprocessMethod::ContrastBoost }
    } else if i == 7 {
        Strategy { scale_num: 3, scale_den: 1, method: PreprocessMethod::ContrastBoost }
    } else {
        Strategy { scale_num: 1, scale_den: 1, method: PreprocessMethod::Invert }
    }
}

/// The whole catalogue, in priority order.
pub fn strategy_catalog() -> (r: Vec<Strategy>)
    ensures
        r@ == catalog(),
{
    let mut r: Vec<Strategy> = Vec::new();
    let mut i: usize = 0;
    while i < STRATEGY_COUNT
        invariant
            i <= STRATEGY_COUNT,
            r@ == catalog().subrange(0, i as int),
        decreases STRATEGY_COUNT - i,
    {
        r.push(strategy_at(i));
        i = i + 1;
        assert(r@ =~= catalog().subrange(0, i as int));
    }
    assert(r@ =~= catalog());
    r
}

/// A scale factor of the catalogue is a positive ratio of small integers.
pub open spec fn strategy_wf(s: Strategy) -> bool {
    1 <= s.scale_num <= 3 && 1 <= s.scale_den <= 2
}

/// A length of `len` pixels after scaling by `s`, rounded down.
pub open spec fn scaled_len(len: int, s: Strategy) -> int {
    len * (s.scale_num as int) / (s.scale_den as int)
}

/// The size in pixels of one side of an image after scaling by `s`.
pub fn scaled_dimension(len: u32, s: Strategy) -> (r: u64)
    requires
        strategy_wf(s),
    ensures
        r as int == scaled_len(len as int, s),
{
    let ghost num = s.scale_num as int;
    let ghost den = s.scale_den as int;
    assert((len as int) * num <= (len as int) * 3) by (nonlinear_arith)
        requires
            num <= 3,
            len >= 0,
    ;
    assert((len as int) * num / den <= (len as int) * num) by (nonlinear_arith)
        requires
            den >= 1,
            len >= 0,
            num >= 0,
    ;
    let p: u64 = len as u64 * s.scale_num as u64;
    p / s.scale_den as u64
}

/// The content of each QR grid that rqrr detects in a single-channel image of
/// `width` by `height` pixels, in detection order; `None` for a grid that
/// fails to decode.
pub uninterp spec fn qr_grid_contents(luma: Seq<u8>, width: nat, height: nat) -> Seq<Option<Seq<char>>>;

/// The view of one decoded grid.
pub open spec fn opt_view(o: Option<String>) -> Option<Seq<char>> {
    match o {
        Some(s) => Some(s@),
        None => None,
    }
}

/// The views of the decoded grids.
pub open spec fn decoded_view(v: Seq<Option<String>>) -> Seq<Option<Seq<char>>> {
    v.map_values(|o: Option<String>| opt_view(o))
}

/// The luminance of pixel `(x, y)` of a single-channel image `width` wide.
pub fn luma_at(luma: &Vec<u8>, width: usize, x: usize, y: usize) -> (r: u8)
    requires
        x < width,
        luma@.len() >= (y + 1) * width,
    ensures
        r == luma@[y * width + x],
{
    let n = luma.len();
    assert(y * width + x < (y + 1) * width) by (nonlinear_arith)
        requires
            x < width,
    ;
    assert(0 <= y * width) by (nonlinear_arith);
    luma[y * width + x]
}

/// Relies on rqrr's `PreparedImage::prepare_from_greyscale`, `detect_grids`
/// and `Grid::decode`: binarises the image, finds the candidate grids and
/// decodes each one; the contents depend on the pixels alone.
#[verifier::external_body]
fn detect_and_decode(luma: &Vec<u8>, width: usize, height: usize) -> (r: Vec<Option<String>>)
    requires
        luma@.len() == width * height,
    ensures
        decoded_view(r@) == qr_grid_contents(luma@, width as nat, height as nat),
{
    let mut prepared = rqrr::PreparedImage::prepare_from_greyscale(width, height, |x, y| luma_at(luma, width, x, y));
    prepared.detect_grids().iter().map(|g| g.decode().ok().map(|d| d.1)).collect()
}

/// The contents of a sequence of results.
pub open spec fn contents(v: Seq<QrCodeResult>) -> Seq<Seq<char>> {
    v.map_values(|r: QrCodeResult| r.content@)
}

/// No content appears twice.
pub open spec fn distinct(s: Seq<Seq<char>>) -> bool {
    forall|i: int, j: int| 0 <= i < j < s.len() ==> s[i] != s[j]
}

/// Every result carries the kind its content implies.
pub open spec fn all_wf(v: Seq<QrCodeResult>) -> bool {
    forall|i: int| 0 <= i < v.len() ==> result_wf(#[trigger] v[i])
}

/// `acc` extended with each decoded content, in order, that it does not yet hold.
pub open spec fn merge_spec(acc: Seq<Seq<char>>, decoded: Seq<Option<Seq<char>>>) -> Seq<Seq<char>>
    decreases decoded.len(),
{
    if decoded.len() == 0 {
        acc
    } else {
        let prev = merge_spec(acc, decoded.drop_last());
        match decoded.last() {
            Some(c) => if prev.contains(c) { prev } else { prev.push(c) },
            None => prev,
        }
    }
}

/// The contents found by running the strategies from `i` on, given what each
/// strategy's image yields, stopping after the first strategy that leaves
/// anything found.
pub open spec fn run_from(acc: Seq<Seq<char>>, outcomes: Seq<Seq<Option<Seq<char>>>>, i: int) -> Seq<Seq<char>>
    decreases outcomes.len() - i,
{
    if acc.len() > 0 || i < 0 || i >= outcomes.len() {
        acc
    } else {
        run_from(merge_spec(acc, outcomes[i]), outcomes, i + 1)
    }
}

/// The contents the pipeline returns, given what each strategy's image yields.
pub open spec fn pipeline_spec(outcomes: Seq<Seq<Option<Seq<char>>>>) -> Seq<Seq<char>> {
    run_from(Seq::empty(), outcomes, 0)
}

proof fn lemma_merge_distinct(acc: Seq<Seq<char>>, decoded: Seq<Option<Seq<char>>>)
    requires
        distinct(acc),
    ensures
        distinct(merge_spec(acc, decoded)),
        acc.len() <= merge_spec(acc, decoded).len(),
        merge_spec(acc, decoded).subrange(0, acc.len() as int) == acc,
    decreases decoded.len(),
{
    if decoded.len() > 0 {
        lemma_merge_distinct(acc, decoded.drop_last());
        let prev = merge_spec(acc, decoded.drop_last());
        match decoded.last() {
            Some(c) => {
                if !prev.contains(c) {
                    assert(prev.push(c).subrange(0, acc.len() as int) =~= prev.subrange(0, acc.len() as int));
                    assert forall|i: int, j: int| 0 <= i < j < prev.push(c).len() implies prev.push(c)[i]
                        != prev.push(c)[j] by {
                        if j == prev.len() {
                            assert(prev[i] == prev.push(c)[i]);
                        }
                    }
                }
            },
            None => {},
        }
    }
}

proof fn lemma_run_distinct(acc: Seq<Seq<char>>, outcomes: Seq<Seq<Option<Seq<char>>>>, i: int)
    requires
        distinct(acc),
    ensures
        distinct(run_from(acc, outcomes, i)),
    decreases outcomes.len() - i,
{
    if !(acc.len() > 0 || i < 0 || i >= outcomes.len()) {
        lemma_merge_distinct(acc, outcomes[i]);
        lemma_run_distinct(merge_spec(acc, outcomes[i]), outcomes, i + 1);
    }
}

/// A copy of one result.
pub fn copy_result(r: &QrCodeResult) -> (c: QrCodeResult)
    ensures
        c.content@ == r.content@,
        c.qr_type == r.qr_type,
{
    QrCodeResult { content: r.content.clone(), qr_type: r.qr_type }
}

/// Whether some result already holds `content`.
fn holds_content(found: &Vec<QrCodeResult>, content: &String) -> (r: bool)
    ensures
        r == contents(found@).contains(content@),
{
    let mut i: usize = 0;
    while i < found.len()
        invariant
            i <= found@.len(),
            forall|k: int| 0 <= k < i ==> found@[k].content@ != content@,
        decreases found@.len() - i,
    {
        if found[i].content == *content {
            assert(contents(found@)[i as int] == content@);
            return true;
        }
        i = i + 1;
    }
    assert(!contents(found@).contains(content@)) by {
        if contents(found@).contains(content@) {
            let k = choose|k: int| 0 <= k < contents(found@).len() && contents(found@)[k] == content@;
            assert(found@[k].content@ == content@);
        }
    }
    false
}

/// Appends to `found` each decoded content, in order, that it does not hold yet.
pub fn merge_decoded(found: &mut Vec<QrCodeResult>, decoded: &Vec<Option<String>>)
    requires
        all_wf(old(found)@),
    ensures
        contents(final(found)@) == merge_spec(contents(old(found)@), decoded_view(decoded@)),
        all_wf(final(found)@),
{
    let ghost start = contents(found@);
    let mut i: usize = 0;
    while i < decoded.len()
        invariant
            i <= decoded@.len(),
            all_wf(found@),
            contents(found@) == merge_spec(start, decoded_view(decoded@.subrange(0, i as int))),
        decreases decoded@.len() - i,
    {
        let ghost prev = found@;
        assert(decoded_view(decoded@.subrange(0, i + 1)).drop_last() =~= decoded_view(
            decoded@.subrange(0, i as int),
        ));
        match &decoded[i] {
            Some(c) => {
                if !holds_content(found, c) {
                    let r = QrCodeResult::new(c.clone());
                    found.push(r);
                    assert(contents(found@) =~= contents(prev).push(c@));
                }
            },
            None => {},
        }
        i = i + 1;
    }
    assert(decoded@.subrange(0, decoded@.len() as int) =~= decoded@);
}

/// The state of one decode: how many strategies have run and what they found.
pub struct DecodeRun {
    next: usize,
    found: Vec<QrCodeResult>,
}

impl DecodeRun {
    /// The index of the next strategy to run.
    pub closed spec fn next_index(&self) -> int {
        self.next as int
    }

    /// What the strategies run so far have found.
    pub closed spec fn found(&self) -> Seq<QrCodeResult> {
        self.found@
    }

    /// The run is over: something was found, or every strategy has run.
    pub open spec fn done(&self) -> bool {
        self.found().len() > 0 || self.next_index() >= STRATEGY_COUNT
    }

    pub open spec fn wf(&self) -> bool {
        0 <= self.next_index() <= STRATEGY_COUNT && all_wf(self.found()) && distinct(contents(self.found()))
    }

    /// A run that has tried nothing yet.
    pub fn new() -> (r: DecodeRun)
        ensures
            r.wf(),
            r.next_index() == 0,
            r.found() == Seq::<QrCodeResult>::empty(),
    {
        DecodeRun { next: 0, found: Vec::new() }
    }

    /// The strategy to apply next, or `None` once the run is over.
    pub fn next_strategy(&self) -> (r: Option<Strategy>)
        requires
            self.wf(),
        ensures
            self.done() <==> r.is_none(),
            r matches Some(s) ==> s == catalog()[self.next_index()],
    {
        if self.found.len() > 0 || self.next >= STRATEGY_COUNT {
            None
        } else {
            Some(strategy_at(self.next))
        }
    }

    /// Records what the current strategy decoded and moves on to the next.
    pub fn record(&mut self, decoded: &Vec<Option<String>>)
        requires
            old(self).wf(),
            !old(self).done(),
        ensures
            final(self).wf(),
            final(self).next_index() == old(self).next_index() + 1,
            contents(final(self).found()) == merge_spec(contents(old(self).found()), decoded_view(decoded@)),
    {
        proof {
            lemma_merge_distinct(contents(self.found@), decoded_view(decoded@));
        }
        merge_decoded(&mut self.found, decoded);
        self.next = self.next + 1;
    }

    /// Runs the detector on the current strategy's single-channel image of
    /// `width` by `height` pixels and records what it decodes; an image with
    /// no pixels decodes to nothing.
    pub fn scan_image(&mut self, luma: &Vec<u8>, width: usize, height: usize)
        requires
            old(self).wf(),
            !old(self).done(),
            luma@.len() == width * height,
        ensures
            final(self).wf(),
            final(self).next_index() == old(self).next_index() + 1,
            width > 0 && height > 0 ==> contents(final(self).found()) == merge_spec(
                contents(old(self).found()),
                qr_grid_contents(luma@, width as nat, height as nat),
            ),
            width == 0 || height == 0 ==> final(self).found() == old(self).found(),
    {
        if width == 0 || height == 0 {
            self.next = self.next + 1;
        } else {
            let decoded = detect_and_decode(luma, width, height);
            self.record(&decoded);
        }
    }

    /// Runs the detector on the current strategy's image, after converting
    /// it to luminance, and records what it decodes.
    pub fn scan_frame(&mut self, variant: &CapturedFrame)
        requires
            old(self).wf(),
            !old(self).done(),
            frame_wf(*variant),
        ensures
            final(self).wf(),
            final(self).next_index() == old(self).next_index() + 1,
            variant.width > 0 && variant.height > 0 ==> contents(final(self).found()) == merge_spec(
                contents(old(self).found()),
                qr_grid_contents(
                    luma_image(variant.pixels@, variant.width as nat, variant.height as nat),
                    variant.width as nat,
                    variant.height as nat,
                ),
            ),
            variant.width == 0 || variant.height == 0 ==> final(self).found() == old(self).found(),
    {
        let luma = to_luma(variant);
        self.scan_image(&luma, variant.width as usize, variant.height as usize);
    }

    /// Moves past the current strategy when its image has no pixels.
    pub fn skip(&mut self)
        requires
            old(self).wf(),
            !old(self).done(),
        ensures
            final(self).wf(),
            final(self).next_index() == old(self).next_index() + 1,
            final(self).found() == old(self).found(),
    {
        self.next = self.next + 1;
    }

    /// The results found, in the order they were first decoded.
    pub fn into_results(self) -> (r: Vec<QrCodeResult>)
        requires
            self.wf(),
        ensures
            r@ == self.found(),
            all_wf(r@),
            distinct(contents(r@)),
    {
        self.found
    }
}

/// The results the pipeline returns when strategy `i` of the catalogue yields
/// `outcomes[i]`: each decoded content once, stopping after the first
/// strategy that finds anything.
pub fn decode_outcomes(outcomes: &Vec<Vec<Option<String>>>) -> (r: Vec<QrCodeResult>)
    ensures
        contents(r@) == pipeline_spec(outcomes@.map_values(|v: Vec<Option<String>>| decoded_view(v@))),
        all_wf(r@),
        distinct(contents(r@)),
{
    let ghost outs = outcomes@.map_values(|v: Vec<Option<String>>| decoded_view(v@));
    let mut found: Vec<QrCodeResult> = Vec::new();
    let mut i: usize = 0;
    assert(contents(found@) =~= Seq::<Seq<char>>::empty());
    while i < outcomes.len() && found.len() == 0
        invariant
            i <= outcomes@.len(),
            outs == outcomes@.map_values(|v: Vec<Option<String>>| decoded_view(v@)),
            all_wf(found@),
            distinct(contents(found@)),
            pipeline_spec(outs) == run_from(contents(found@), outs, i as int),
        decreases outcomes@.len() - i,
    {
        proof {
            lemma_merge_distinct(contents(found@), outs[i as int]);
        }
        merge_decoded(&mut found, &outcomes[i]);
        i = i + 1;
    }
    found
}

/// The contents and kinds of a sequence of results.
pub open spec fn results_view(v: Seq<QrCodeResult>) -> Seq<(Seq<char>, QrCodeType)> {
    v.map_values(|r: QrCodeResult| (r.content@, r.qr_type))
}

/// The results of several images, image after image, each image's results in
/// their own order; the same content found in two images is kept twice.
pub fn concat_results(per_image: &Vec<Vec<QrCodeResult>>) -> (r: Vec<QrCodeResult>)
    ensures
        results_view(r@) == per_image@.map_values(|v: Vec<QrCodeResult>| results_view(v@)).flatten(),
{
    let ghost views = per_image@.map_values(|v: Vec<QrCodeResult>| results_view(v@));
    let mut out: Vec<QrCodeResult> = Vec::new();
    let mut i: usize = 0;
    assert(views.subrange(0, 0).flatten() =~= Seq::<(Seq<char>, QrCodeType)>::empty());
    while i < per_image.len()
        invariant
            i <= per_image@.len(),
            views == per_image@.map_values(|v: Vec<QrCodeResult>| results_view(v@)),
            results_view(out@) == views.subrange(0, i as int).flatten(),
        decreases per_image@.len() - i,
    {
        let ghost before = results_view(out@);
        let image = &per_image[i];
        let mut j: usize = 0;
        while j < image.len()
            invariant
                j <= image@.len(),
                results_view(out@) == before + results_view(image@).subrange(0, j as int),
            decreases image@.len() - j,
        {
            let ghost prev = out@;
            out.push(copy_result(&image[j]));
            assert(results_view(out@) =~= results_view(prev).push(results_view(image@)[j as int]));
            j = j + 1;
            assert(results_view(out@) =~= before + results_view(image@).subrange(0, j as int));
        }
        proof {
            assert(results_view(image@).subrange(0, j as int) =~= results_view(image@));
            assert(views.subrange(0, i + 1) =~= views.subrange(0, i as int).push(views[i as int]));
            views.subrange(0, i as int).lemma_flatten_push(views[i as int]);
        }
        i = i + 1;
    }
    assert(views.subrange(0, i as int) =~= views);
    out
}

proof fn lemma_merge_holds(acc: Seq<Seq<char>>, decoded: Seq<Option<Seq<char>>>, c: Seq<char>)
    requires
        decoded.contains(Some(c)) || acc.contains(c),
    ensures
        merge_spec(acc, decoded).contains(c),
    decreases decoded.len(),
{
    if decoded.len() > 0 {
        let prev = merge_spec(acc, decoded.drop_last());
        if decoded.last() == Some(c) {
            if !prev.contains(c) {
                assert(prev.push(c)[prev.len() as int] == c);
            }
        } else {
            if !acc.contains(c) {
                let k = choose|k: int| 0 <= k < decoded.len() && decoded[k] == Some(c);
                assert(decoded.drop_last()[k] == Some(c));
            }
            lemma_merge_holds(acc, decoded.drop_last(), c);
            match decoded.last() {
                Some(d) => {
                    if !prev.contains(d) {
                        let k = choose|k: int| 0 <= k < prev.len() && prev[k] == c;
                        assert(prev.push(d)[k] == c);
                    }
                },
                None => {},
            }
        }
    }
}

/// Once the first strategy decodes anything, no later strategy matters: the
/// pipeline returns exactly what the first one found, whatever the others
/// would have yielded.
pub proof fn lemma_early_exit(first: Seq<Option<Seq<char>>>, rest: Seq<Seq<Option<Seq<char>>>>)
    requires
        merge_spec(Seq::empty(), first).len() > 0,
    ensures
        pipeline_spec(seq![first] + rest) == merge_spec(Seq::empty(), first),
{
    let outs = seq![first] + rest;
    assert(outs[0] == first);
    assert(run_from(Seq::empty(), outs, 0) == run_from(merge_spec(Seq::empty(), first), outs, 1));
}

/// A content that the first strategy decodes, however many times it occurs
/// among the grids found, appears exactly once in the pipeline's result.
pub proof fn lemma_dedup(outcomes: Seq<Seq<Option<Seq<char>>>>, c: Seq<char>)
    requires
        outcomes.len() > 0,
        outcomes[0].contains(Some(c)),
    ensures
        pipeline_spec(outcomes).contains(c),
        distinct(pipeline_spec(outcomes)),
        forall|i: int, j: int|
            0 <= i < j < pipeline_spec(outcomes).len() && pipeline_spec(outcomes)[i] == c ==> pipeline_spec(
                outcomes,
            )[j] != c,
{
    lemma_merge_holds(Seq::empty(), outcomes[0], c);
    let first = outcomes[0];
    assert(outcomes =~= seq![first] + outcomes.drop_first());
    lemma_early_exit(first, outcomes.drop_first());
    lemma_run_distinct(Seq::empty(), outcomes, 0);
}

/// The pipeline is a function of what each strategy's image yields: the same
/// images, tried in the catalogue's fixed order, give the same results in the
/// same order.
pub proof fn lemma_deterministic(a: Seq<Seq<Option<Seq<char>>>>, b: Seq<Seq<Option<Seq<char>>>>)
    requires
        a.len() == b.len(),
        forall|i: int| 0 <= i < a.len() ==> a[i] == b[i],
    ensures
        pipeline_spec(a) == pipeline_spec(b),
{
    assert(a =~= b);
}

} // verus!
