//! Locating JPEG streams inside a byte buffer and classifying them.
use vstd::prelude::*;

verus! {

/// A start-of-image marker `FF D8 FF` begins at `i`.
pub open spec fn soi_at(b: Seq<u8>, i: int) -> bool {
    0 <= i && i + 3 <= b.len() && b[i] == 0xff && b[i + 1] == 0xd8 && b[i + 2] == 0xff
}

/// An end-of-image marker `FF D9` begins at `i`.
pub open spec fn eoi_at(b: Seq<u8>, i: int) -> bool {
    0 <= i && i + 2 <= b.len() && b[i] == 0xff && b[i + 1] == 0xd9
}

/// The first position at or after `from` where a start-of-image marker begins.
pub open spec fn first_soi(b: Seq<u8>, from: nat) -> Option<nat>
    decreases b.len() - from,
{
    if from + 3 > b.len() {
        None
    } else if soi_at(b, from as int) {
        Some(from)
    } else {
        first_soi(b, from + 1)
    }
}

/// The last position `e` with `lo <= e` and `e + 2 <= hi` where an
/// end-of-image marker begins.
pub open spec fn last_eoi(b: Seq<u8>, lo: nat, hi: nat) -> Option<nat>
    decreases hi,
{
    if hi < lo + 2 {
        None
    } else if eoi_at(b, hi - 2) {
        Some((hi - 2) as nat)
    } else {
        last_eoi(b, lo, (hi - 1) as nat)
    }
}

pub proof fn lemma_first_soi(b: Seq<u8>, from: nat)
    ensures
        match first_soi(b, from) {
            Some(i) => from <= i && soi_at(b, i as int) && forall|k: int|
                from <= k < i ==> !soi_at(b, k),
            None => forall|k: int| from <= k ==> !soi_at(b, k),
        },
    decreases b.len() - from,
{
    if from + 3 <= b.len() && !soi_at(b, from as int) {
        lemma_first_soi(b, from + 1);
    }
}

pub proof fn lemma_last_eoi(b: Seq<u8>, lo: nat, hi: nat)
    ensures
        last_eoi(b, lo, hi) matches Some(e) ==> lo <= e && e + 2 <= hi && eoi_at(b, e as int),
    decreases hi,
{
    if hi >= lo + 2 && !eoi_at(b, hi - 2) {
        lemma_last_eoi(b, lo, (hi - 1) as nat);
    }
}

/// Where the run begun by the start marker at `soi` may end: the next start
/// marker, or the end of the buffer.
pub open spec fn run_bound(b: Seq<u8>, soi: nat) -> nat {
    match first_soi(b, soi + 3) {
        Some(n) => n,
        None => b.len(),
    }
}

/// The first JPEG run at or after `start`: from a start-of-image marker through
/// the last end-of-image marker before the next start marker. A start marker
/// with no end marker before the next one is passed over.
pub open spec fn next_run(b: Seq<u8>, start: nat) -> Option<(nat, nat)>
    decreases b.len() - start,
{
    match first_soi(b, start) {
        None => None,
        Some(soi) => match last_eoi(b, soi + 3, run_bound(b, soi)) {
            Some(e) => Some((soi, e + 2)),
            None => match first_soi(b, soi + 3) {
                Some(n) => if start < n <= b.len() {
                    next_run(b, n)
                } else {
                    None
                },
                None => None,
            },
        },
    }
}

pub proof fn lemma_next_run(b: Seq<u8>, start: nat)
    ensures
        next_run(b, start) matches Some(r) ==> {
            &&& start <= r.0
            &&& r.0 + 5 <= r.1 <= b.len()
            &&& soi_at(b, r.0 as int)
            &&& eoi_at(b, r.1 - 2)
        },
    decreases b.len() - start,
{
    lemma_first_soi(b, start);
    if let Some(soi) = first_soi(b, start) {
        lemma_first_soi(b, soi + 3);
        lemma_last_eoi(b, soi + 3, run_bound(b, soi));
        if last_eoi(b, soi + 3, run_bound(b, soi)) is None {
            if let Some(n) = first_soi(b, soi + 3) {
                if start < n <= b.len() {
                    lemma_next_run(b, n);
                }
            }
        }
    }
}

/// The JPEG runs found by a left-to-right scan from `start`; after each run
/// the scan resumes right after its end marker. Runs are `(start, end)` with
/// `end` exclusive.
pub open spec fn runs_from(b: Seq<u8>, start: nat) -> Seq<(nat, nat)>
    decreases b.len() - start,
{
    match next_run(b, start) {
        None => seq![],
        Some(r) => if start < r.1 <= b.len() {
            seq![r] + runs_from(b, r.1)
        } else {
            seq![]
        },
    }
}

/// All JPEG runs of a buffer, scanning from its first byte.
pub open spec fn jpeg_runs(b: Seq<u8>) -> Seq<(nat, nat)> {
    runs_from(b, 0)
}

pub open spec fn run_len(r: (nat, nat)) -> int {
    r.1 - r.0
}

/// Keeps `acc` unless `r` is strictly longer.
pub open spec fn longer_of(acc: Option<(nat, nat)>, r: (nat, nat)) -> Option<(nat, nat)> {
    match acc {
        None => Some(r),
        Some(a) => if run_len(r) > run_len(a) {
            Some(r)
        } else {
            acc
        },
    }
}

/// The longest of `acc` and `runs`, the earliest one on a tie.
pub open spec fn longest_from(acc: Option<(nat, nat)>, runs: Seq<(nat, nat)>) -> Option<(nat, nat)>
    decreases runs.len(),
{
    if runs.len() == 0 {
        acc
    } else {
        longest_from(longer_of(acc, runs[0]), runs.drop_first())
    }
}

/// The longest JPEG run of a buffer, the earliest one among equals.
pub open spec fn largest_run(b: Seq<u8>) -> Option<(nat, nat)> {
    longest_from(None, jpeg_runs(b))
}

/// The bytes of an optional run.
pub open spec fn run_bytes(b: Seq<u8>, r: (nat, nat)) -> Seq<u8> {
    b.subrange(r.0 as int, r.1 as int)
}

/// Position of the first start-of-image marker at or after `from`.
fn find_soi(buffer: &[u8], from: usize) -> (r: Option<usize>)
    ensures
        match r {
            Some(i) => first_soi(buffer@, from as nat) == Some(i as nat),
            None => first_soi(buffer@, from as nat) is None,
        },
{
    let len = buffer.len();
    let mut i: usize = from;
    while i < len && len - i >= 3
        invariant
            from <= i,
            len == buffer@.len(),
            first_soi(buffer@, from as nat) == first_soi(buffer@, i as nat),
        decreases len - i,
    {
        if buffer[i] == 0xff && buffer[i + 1] == 0xd8 && buffer[i + 2] == 0xff {
            return Some(i);
        }
        i = i + 1;
    }
    None
}

/// Position of the last end-of-image marker within `lo..hi`.
fn find_last_eoi(buffer: &[u8], lo: usize, hi: usize) -> (r: Option<usize>)
    requires
        hi <= buffer@.len(),
    ensures
        match r {
            Some(i) => last_eoi(buffer@, lo as nat, hi as nat) == Some(i as nat),
            None => last_eoi(buffer@, lo as nat, hi as nat) is None,
        },
{
    let mut h: usize = hi;
    while h >= 2 && h - 2 >= lo
        invariant
            h <= hi,
            hi <= buffer@.len(),
            last_eoi(buffer@, lo as nat, hi as nat) == last_eoi(buffer@, lo as nat, h as nat),
        decreases h,
    {
        if buffer[h - 2] == 0xff && buffer[h - 1] == 0xd9 {
            return Some(h - 2);
        }
        h = h - 1;
    }
    None
}

/// The first JPEG run at or after `start`.
fn find_next_run(buffer: &[u8], start: usize) -> (r: Option<(usize, usize)>)
    ensures
        opt_run(r) == next_run(buffer@, start as nat),
{
    let len = buffer.len();
    let mut cur: usize = start;
    loop
        invariant
            start <= cur,
            len == buffer@.len(),
            next_run(buffer@, start as nat) == next_run(buffer@, cur as nat),
        decreases len - cur,
    {
        let soi = match find_soi(buffer, cur) {
            Some(s) => s,
            None => {
                return None;
            },
        };
        proof {
            lemma_first_soi(buffer@, cur as nat);
            lemma_first_soi(buffer@, (soi + 3) as nat);
        }
        let next = find_soi(buffer, soi + 3);
        let bound = match next {
            Some(n) => n,
            None => len,
        };
        match find_last_eoi(buffer, soi + 3, bound) {
            Some(e) => {
                proof {
                    lemma_last_eoi(buffer@, (soi + 3) as nat, bound as nat);
                }
                return Some((soi, e + 2));
            },
            None => {},
        }
        match next {
            Some(n) => {
                cur = n;
            },
            None => {
                return None;
            },
        }
    }
}

pub open spec fn opt_run(r: Option<(usize, usize)>) -> Option<(nat, nat)> {
    match r {
        Some(p) => Some((p.0 as nat, p.1 as nat)),
        None => None,
    }
}

/// The longest JPEG run of `buffer`, as `(start, end)`.
pub fn largest_jpeg_run(buffer: &[u8]) -> (r: Option<(usize, usize)>)
    ensures
        opt_run(r) == largest_run(buffer@),
        r matches Some(p) ==> p.0 <= p.1 <= buffer@.len(),
{
    let len = buffer.len();
    let mut start: usize = 0;
    let mut best: Option<(usize, usize)> = None;
    loop
        invariant
            start <= len,
            len == buffer@.len(),
            largest_run(buffer@) == longest_from(opt_run(best), runs_from(buffer@, start as nat)),
            best matches Some(p) ==> p.0 <= p.1 <= len,
        decreases len - start,
    {
        let (soi, end) = match find_next_run(buffer, start) {
            Some(p) => p,
            None => {
                return best;
            },
        };
        proof {
            lemma_next_run(buffer@, start as nat);
            let rest = runs_from(buffer@, end as nat);
            assert((seq![(soi as nat, end as nat)] + rest).drop_first() =~= rest);
        }
        let better = match best {
            None => true,
            Some(p) => end - soi > p.1 - p.0,
        };
        if better {
            best = Some((soi, end));
        }
        start = end;
    }
}

/// The longest JPEG slice of `buffer`: from a start-of-image marker through the
/// last end-of-image marker before the next start marker, the earliest one
/// among equals.
pub fn largest_jpeg_slice(buffer: &[u8]) -> (r: Option<&[u8]>)
    ensures
        match largest_run(buffer@) {
            Some(p) => r matches Some(s) && s@ == run_bytes(buffer@, p),
            None => r is None,
        },
{
    match largest_jpeg_run(buffer) {
        Some(p) => Some(vstd::slice::slice_subrange(buffer, p.0, p.1)),
        None => None,
    }
}

/// Every run a scan from `start` reports begins with `FF D8 FF` at or after
/// `start`, ends with `FF D9`, and lies before the runs reported after it.
pub proof fn lemma_runs_from_well_formed(b: Seq<u8>, start: nat)
    ensures
        forall|i: int|
            0 <= i < runs_from(b, start).len() ==> {
                let r = #[trigger] runs_from(b, start)[i];
                &&& start <= r.0
                &&& r.0 + 5 <= r.1 <= b.len()
                &&& soi_at(b, r.0 as int)
                &&& eoi_at(b, r.1 - 2)
            },
        forall|i: int, j: int|
            0 <= i < j < runs_from(b, start).len() ==> runs_from(b, start)[i].1
                <= runs_from(b, start)[j].0,
    decreases b.len() - start,
{
    lemma_next_run(b, start);
    if let Some(r) = next_run(b, start) {
        if start < r.1 <= b.len() {
            lemma_runs_from_well_formed(b, r.1);
            let rest = runs_from(b, r.1);
            let all = runs_from(b, start);
            assert(all == seq![r] + rest);
            assert forall|i: int| 0 < i < all.len() implies all[i] == rest[i - 1] by {}
        }
    }
}

/// The JPEG runs of a buffer never overlap: each starts with `FF D8 FF`, ends
/// with `FF D9`, and ends at or before the start of every later run.
pub proof fn lemma_jpeg_runs_disjoint(b: Seq<u8>)
    ensures
        forall|i: int|
            0 <= i < jpeg_runs(b).len() ==> {
                let r = #[trigger] jpeg_runs(b)[i];
                &&& r.0 + 5 <= r.1 <= b.len()
                &&& run_bytes(b, r).len() >= 5
                &&& run_bytes(b, r).subrange(0, 3) == seq![0xffu8, 0xd8u8, 0xffu8]
                &&& run_bytes(b, r).subrange(run_bytes(b, r).len() - 2, run_bytes(b, r).len() as int)
                    == seq![0xffu8, 0xd9u8]
            },
        forall|i: int, j: int|
            0 <= i < j < jpeg_runs(b).len() ==> jpeg_runs(b)[i].1 <= jpeg_runs(b)[j].0,
{
    lemma_runs_from_well_formed(b, 0);
    assert forall|i: int| 0 <= i < jpeg_runs(b).len() implies {
        let r = #[trigger] jpeg_runs(b)[i];
        &&& r.0 + 5 <= r.1 <= b.len()
        &&& run_bytes(b, r).len() >= 5
        &&& run_bytes(b, r).subrange(0, 3) == seq![0xffu8, 0xd8u8, 0xffu8]
        &&& run_bytes(b, r).subrange(run_bytes(b, r).len() - 2, run_bytes(b, r).len() as int)
            == seq![0xffu8, 0xd9u8]
    } by {
        let r = jpeg_runs(b)[i];
        let s = run_bytes(b, r);
        assert(s.subrange(0, 3) =~= seq![0xffu8, 0xd8u8, 0xffu8]);
        assert(s.subrange(s.len() - 2, s.len() as int) =~= seq![0xffu8, 0xd9u8]);
    }
}

proof fn lemma_longest_from(acc: Option<(nat, nat)>, runs: Seq<(nat, nat)>)
    ensures
        longest_from(acc, runs) == acc || runs.contains(longest_from(acc, runs)->0),
        longest_from(acc, runs) is None <==> (acc is None && runs.len() == 0),
        acc matches Some(a) ==> run_len(a) <= run_len(longest_from(acc, runs)->0),
        forall|i: int| 0 <= i < runs.len() ==> run_len(#[trigger] runs[i]) <= run_len(
            longest_from(acc, runs)->0,
        ),
    decreases runs.len(),
{
    if runs.len() > 0 {
        let next = longer_of(acc, runs[0]);
        let rest = runs.drop_first();
        lemma_longest_from(next, rest);
        assert forall|i: int| 0 < i < runs.len() implies runs[i] == rest[i - 1] by {}
        if longest_from(next, rest) != next {
            assert(runs.contains(longest_from(acc, runs)->0)) by {
                let k = choose|k: int| 0 <= k < rest.len() && rest[k] == longest_from(next, rest)->0;
                assert(runs[k + 1] == rest[k]);
            }
        }
    }
}

/// The largest run is one of the buffer's JPEG runs and none is longer; there
/// is one exactly when the buffer holds any run.
pub proof fn lemma_largest_run_is_longest(b: Seq<u8>)
    ensures
        largest_run(b) is None <==> jpeg_runs(b).len() == 0,
        largest_run(b) matches Some(r) ==> jpeg_runs(b).contains(r),
        largest_run(b) matches Some(r) ==> forall|i: int|
            0 <= i < jpeg_runs(b).len() ==> run_len(#[trigger] jpeg_runs(b)[i]) <= run_len(r),
{
    lemma_longest_from(None, jpeg_runs(b));
}

/// A structurally valid JPEG: at least four bytes, starting with `FF D8`, with
/// an `FF D9` somewhere in it.
pub open spec fn valid_jpeg(s: Seq<u8>) -> bool {
    &&& s.len() >= 4
    &&& s[0] == 0xff
    &&& s[1] == 0xd8
    &&& exists|i: int| #[trigger] eoi_at(s, i)
}

/// Number of leading bytes in which an application marker makes a JPEG
/// displayable.
pub const DISPLAY_MARKER_WINDOW: usize = 80;

/// A JFIF (`FF E0 'J' 'F'`) or Exif (`FF E1 'E' 'x'`) application marker begins
/// at `i`.
pub open spec fn app_marker_at(s: Seq<u8>, i: int) -> bool {
    &&& 0 <= i
    &&& i + 4 <= s.len()
    &&& s[i] == 0xff
    &&& ((s[i + 1] == 0xe0 && s[i + 2] == 0x4a && s[i + 3] == 0x46) || (s[i + 1] == 0xe1 && s[i
        + 2] == 0x45 && s[i + 3] == 0x78))
}

/// A valid JPEG meant for display: a JFIF or Exif marker lies wholly within its
/// leading bytes, which raw sensor data stored as lossless JPEG lacks.
pub open spec fn display_jpeg(s: Seq<u8>) -> bool {
    &&& valid_jpeg(s)
    &&& exists|i: int| #[trigger] app_marker_at(s, i) && i + 4 <= DISPLAY_MARKER_WINDOW
}

/// Whether `slice` is a structurally valid JPEG.
pub fn is_valid_jpeg(slice: &[u8]) -> (r: bool)
    ensures
        r == valid_jpeg(slice@),
{
    let len = slice.len();
    if len < 4 || slice[0] != 0xff || slice[1] != 0xd8 {
        return false;
    }
    let mut i: usize = len - 1;
    while i > 0
        invariant
            len == slice@.len(),
            len >= 4,
            slice@[0] == 0xff,
            slice@[1] == 0xd8,
            i < len,
            forall|k: int| i <= k ==> !eoi_at(slice@, k),
        decreases i,
    {
        if slice[i - 1] == 0xff && slice[i] == 0xd9 {
            assert(eoi_at(slice@, i - 1));
            return true;
        }
        i = i - 1;
    }
    false
}

/// Whether `slice` is a valid JPEG with a JFIF or Exif marker near its start.
pub fn is_display_jpeg(slice: &[u8]) -> (r: bool)
    ensures
        r == display_jpeg(slice@),
{
    if !is_valid_jpeg(slice) {
        return false;
    }
    let len = slice.len();
    let mut i: usize = 0;
    while i + 4 <= len && i + 4 <= DISPLAY_MARKER_WINDOW
        invariant
            len == slice@.len(),
            i <= DISPLAY_MARKER_WINDOW,
            valid_jpeg(slice@),
            forall|k: int| 0 <= k < i ==> !app_marker_at(slice@, k),
        decreases len - i,
    {
        let jfif = slice[i + 1] == 0xe0 && slice[i + 2] == 0x4a && slice[i + 3] == 0x46;
        let exif = slice[i + 1] == 0xe1 && slice[i + 2] == 0x45 && slice[i + 3] == 0x78;
        if slice[i] == 0xff && (jfif || exif) {
            assert(app_marker_at(slice@, i as int));
            return true;
        }
        i = i + 1;
    }
    false
}

/// The first of `runs` whose bytes form a valid JPEG.
pub open spec fn first_valid_run(b: Seq<u8>, runs: Seq<(nat, nat)>) -> Option<(nat, nat)>
    decreases runs.len(),
{
    if runs.len() == 0 {
        None
    } else if valid_jpeg(run_bytes(b, runs[0])) {
        Some(runs[0])
    } else {
        first_valid_run(b, runs.drop_first())
    }
}

/// The longest of `acc` and the displayable runs of `runs`, the earliest one
/// on a tie.
pub open spec fn longest_display_from(b: Seq<u8>, acc: Option<(nat, nat)>, runs: Seq<(nat, nat)>) -> Option<
    (nat, nat),
>
    decreases runs.len(),
{
    if runs.len() == 0 {
        acc
    } else {
        let next = if display_jpeg(run_bytes(b, runs[0])) {
            longer_of(acc, runs[0])
        } else {
            acc
        };
        longest_display_from(b, next, runs.drop_first())
    }
}

/// The longest displayable JPEG run of a buffer, the earliest one among equals.
pub open spec fn largest_display_run(b: Seq<u8>) -> Option<(nat, nat)> {
    longest_display_from(b, None, jpeg_runs(b))
}

/// The run chosen as a preview: the largest displayable run, else the first
/// run that is a valid JPEG, markers or not.
pub open spec fn display_run(b: Seq<u8>) -> Option<(nat, nat)> {
    match largest_display_run(b) {
        Some(r) => Some(r),
        None => first_valid_run(b, jpeg_runs(b)),
    }
}

/// The longest displayable JPEG run of `buffer`.
fn largest_display_jpeg_run(buffer: &[u8]) -> (r: Option<(usize, usize)>)
    ensures
        opt_run(r) == largest_display_run(buffer@),
        r matches Some(p) ==> p.0 <= p.1 <= buffer@.len(),
{
    let len = buffer.len();
    let mut start: usize = 0;
    let mut best: Option<(usize, usize)> = None;
    loop
        invariant
            start <= len,
            len == buffer@.len(),
            largest_display_run(buffer@) == longest_display_from(
                buffer@,
                opt_run(best),
                runs_from(buffer@, start as nat),
            ),
            best matches Some(p) ==> p.0 <= p.1 <= len,
        decreases len - start,
    {
        let (soi, end) = match find_next_run(buffer, start) {
            Some(p) => p,
            None => {
                return best;
            },
        };
        proof {
            lemma_next_run(buffer@, start as nat);
            let rest = runs_from(buffer@, end as nat);
            assert((seq![(soi as nat, end as nat)] + rest).drop_first() =~= rest);
        }
        let slice = vstd::slice::slice_subrange(buffer, soi, end);
        if is_display_jpeg(slice) {
            let better = match best {
                None => true,
                Some(p) => end - soi > p.1 - p.0,
            };
            if better {
                best = Some((soi, end));
            }
        }
        start = end;
    }
}

/// The first JPEG run of `buffer` that is a valid JPEG.
fn first_valid_jpeg_run(buffer: &[u8]) -> (r: Option<(usize, usize)>)
    ensures
        opt_run(r) == first_valid_run(buffer@, jpeg_runs(buffer@)),
        r matches Some(p) ==> p.0 <= p.1 <= buffer@.len(),
{
    let len = buffer.len();
    let mut start: usize = 0;
    loop
        invariant
            start <= len,
            len == buffer@.len(),
            first_valid_run(buffer@, jpeg_runs(buffer@)) == first_valid_run(
                buffer@,
                runs_from(buffer@, start as nat),
            ),
        decreases len - start,
    {
        let (soi, end) = match find_next_run(buffer, start) {
            Some(p) => p,
            None => {
                return None;
            },
        };
        proof {
            lemma_next_run(buffer@, start as nat);
            let rest = runs_from(buffer@, end as nat);
            assert((seq![(soi as nat, end as nat)] + rest).drop_first() =~= rest);
        }
        let slice = vstd::slice::slice_subrange(buffer, soi, end);
        if is_valid_jpeg(slice) {
            return Some((soi, end));
        }
        start = end;
    }
}

/// The preview JPEG of `buffer`: the largest JPEG slice that carries a JFIF or
/// Exif marker, else the first valid JPEG slice.
pub fn find_display_jpeg_slice(buffer: &[u8]) -> (r: Option<&[u8]>)
    ensures
        match display_run(buffer@) {
            Some(p) => r matches Some(s) && s@ == run_bytes(buffer@, p),
            None => r is None,
        },
{
    if let Some(p) = largest_display_jpeg_run(buffer) {
        return Some(vstd::slice::slice_subrange(buffer, p.0, p.1));
    }
    match first_valid_jpeg_run(buffer) {
        Some(p) => Some(vstd::slice::slice_subrange(buffer, p.0, p.1)),
        None => None,
    }
}

proof fn lemma_first_valid_run(b: Seq<u8>, runs: Seq<(nat, nat)>)
    ensures
        first_valid_run(b, runs) matches Some(p) ==> runs.contains(p) && valid_jpeg(
            run_bytes(b, p),
        ),
    decreases runs.len(),
{
    if runs.len() > 0 && !valid_jpeg(run_bytes(b, runs[0])) {
        let rest = runs.drop_first();
        lemma_first_valid_run(b, rest);
        if let Some(p) = first_valid_run(b, rest) {
            let k = choose|k: int| 0 <= k < rest.len() && rest[k] == p;
            assert(runs[k + 1] == p);
        }
    }
}

proof fn lemma_longest_display_from(b: Seq<u8>, acc: Option<(nat, nat)>, runs: Seq<(nat, nat)>)
    ensures
        longest_display_from(b, acc, runs) == acc || (runs.contains(
            longest_display_from(b, acc, runs)->0,
        ) && display_jpeg(run_bytes(b, longest_display_from(b, acc, runs)->0))),
        longest_display_from(b, acc, runs) is None ==> forall|i: int|
            0 <= i < runs.len() ==> !display_jpeg(run_bytes(b, #[trigger] runs[i])),
        longest_display_from(b, acc, runs) matches Some(m) ==> forall|i: int|
            0 <= i < runs.len() && display_jpeg(run_bytes(b, #[trigger] runs[i])) ==> run_len(runs[i])
                <= run_len(m),
    decreases runs.len(),
{
    if runs.len() > 0 {
        let next = if display_jpeg(run_bytes(b, runs[0])) {
            longer_of(acc, runs[0])
        } else {
            acc
        };
        let rest = runs.drop_first();
        lemma_longest_display_from(b, next, rest);
        lemma_longest_display_mono(b, next, rest);
        assert forall|i: int| 0 < i < runs.len() implies runs[i] == rest[i - 1] by {}
        if longest_display_from(b, next, rest) != next {
            let k = choose|k: int| 0 <= k < rest.len() && rest[k] == longest_display_from(b, next, rest)->0;
            assert(runs[k + 1] == rest[k]);
        }
    }
}

proof fn lemma_longest_display_mono(b: Seq<u8>, acc: Option<(nat, nat)>, runs: Seq<(nat, nat)>)
    ensures
        acc matches Some(a) ==> longest_display_from(b, acc, runs) matches Some(m) && run_len(a)
            <= run_len(m),
    decreases runs.len(),
{
    if runs.len() > 0 {
        let next = if display_jpeg(run_bytes(b, runs[0])) {
            longer_of(acc, runs[0])
        } else {
            acc
        };
        lemma_longest_display_mono(b, next, runs.drop_first());
    }
}

/// The largest displayable run is a displayable run of the buffer, and no
/// displayable run is longer; there is none only when no run is displayable.
pub proof fn lemma_largest_display_run(b: Seq<u8>)
    ensures
        largest_display_run(b) matches Some(m) ==> jpeg_runs(b).contains(m) && display_jpeg(
            run_bytes(b, m),
        ) && forall|i: int|
            0 <= i < jpeg_runs(b).len() && display_jpeg(run_bytes(b, #[trigger] jpeg_runs(b)[i]))
                ==> run_len(jpeg_runs(b)[i]) <= run_len(m),
        largest_display_run(b) is None ==> forall|i: int|
            0 <= i < jpeg_runs(b).len() ==> !display_jpeg(run_bytes(b, #[trigger] jpeg_runs(b)[i])),
{
    lemma_longest_display_from(b, None, jpeg_runs(b));
}

/// The preview run is one of the buffer's JPEG runs, and a valid JPEG.
pub proof fn lemma_display_run_valid(b: Seq<u8>)
    ensures
        display_run(b) matches Some(p) ==> jpeg_runs(b).contains(p) && p.0 <= p.1 <= b.len()
            && valid_jpeg(run_bytes(b, p)),
{
    lemma_longest_display_from(b, None, jpeg_runs(b));
    lemma_first_valid_run(b, jpeg_runs(b));
    lemma_jpeg_runs_disjoint(b);
    if let Some(p) = display_run(b) {
        let k = choose|k: int| 0 <= k < jpeg_runs(b).len() && jpeg_runs(b)[k] == p;
        assert(p.0 + 5 <= p.1 <= b.len());
    }
}

/// A run between a start marker and an end marker is a valid JPEG.
pub proof fn lemma_run_valid(b: Seq<u8>, p: (nat, nat))
    requires
        p.0 + 5 <= p.1 <= b.len(),
        soi_at(b, p.0 as int),
        eoi_at(b, p.1 - 2),
    ensures
        valid_jpeg(run_bytes(b, p)),
{
    let s = run_bytes(b, p);
    assert(eoi_at(s, s.len() - 2));
}

/// The largest run, when there is one, is a valid JPEG within the buffer.
pub proof fn lemma_largest_run_valid(b: Seq<u8>)
    ensures
        largest_run(b) matches Some(p) ==> p.0 <= p.1 <= b.len() && valid_jpeg(run_bytes(b, p)),
{
    lemma_largest_run_is_longest(b);
    lemma_runs_from_well_formed(b, 0);
    if let Some(p) = largest_run(b) {
        let k = choose|k: int| 0 <= k < jpeg_runs(b).len() && jpeg_runs(b)[k] == p;
        assert(jpeg_runs(b)[k] == p);
        lemma_run_valid(b, p);
    }
}

/// A valid JPEG with a JFIF marker wholly within its first bytes is
/// displayable; one with no JFIF or Exif marker there is not.
pub proof fn lemma_display_by_marker(s: Seq<u8>, i: int)
    requires
        valid_jpeg(s),
    ensures
        0 <= i && i + 4 <= DISPLAY_MARKER_WINDOW && i + 4 <= s.len() && s[i] == 0xff && s[i + 1]
            == 0xe0 && s[i + 2] == 0x4a && s[i + 3] == 0x46 ==> display_jpeg(s),
        (forall|k: int| 0 <= k && k + 4 <= DISPLAY_MARKER_WINDOW ==> !app_marker_at(s, k))
            ==> !display_jpeg(s),
{
    if 0 <= i && i + 4 <= DISPLAY_MARKER_WINDOW && i + 4 <= s.len() && s[i] == 0xff && s[i + 1]
        == 0xe0 && s[i + 2] == 0x4a && s[i + 3] == 0x46 {
        assert(app_marker_at(s, i));
    }
}

/// The largest JPEG slice, when there is one, starts with `FF D8 FF` and ends
/// with `FF D9`.
pub proof fn lemma_largest_slice_markers(b: Seq<u8>)
    ensures
        largest_run(b) matches Some(p) ==> {
            let s = run_bytes(b, p);
            &&& s.len() >= 5
            &&& s.subrange(0, 3) == seq![0xffu8, 0xd8u8, 0xffu8]
            &&& s.subrange(s.len() - 2, s.len() as int) == seq![0xffu8, 0xd9u8]
        },
{
    lemma_largest_run_is_longest(b);
    lemma_jpeg_runs_disjoint(b);
    if let Some(p) = largest_run(b) {
        let k = choose|k: int| 0 <= k < jpeg_runs(b).len() && jpeg_runs(b)[k] == p;
        assert(jpeg_runs(b)[k] == p);
    }
}

} // verus!
