use vstd::prelude::*;

verus! {

/// The size in bytes past which an output file is handed to the upload pipeline.
pub const UPLOAD_THRESHOLD_BYTES: u64 = 10 * 1024 * 1024;

/// Whether a lifecycle tick that sees `file` at `size` bytes hands it off,
/// given the files handed off so far.
pub open spec fn tick_fires(handed: Seq<Seq<char>>, file: Seq<char>, size: u64) -> bool {
    size > UPLOAD_THRESHOLD_BYTES && !handed.contains(file)
}

/// The files handed off after such a tick.
pub open spec fn tick_next(handed: Seq<Seq<char>>, file: Seq<char>, size: u64) -> Seq<Seq<char>> {
    if tick_fires(handed, file, size) {
        handed.push(file)
    } else {
        handed
    }
}

/// The files handed off after ticks that see `file` at each of `sizes` in turn.
pub open spec fn ticks_state(handed: Seq<Seq<char>>, file: Seq<char>, sizes: Seq<u64>) -> Seq<Seq<char>>
    decreases sizes.len(),
{
    if sizes.len() == 0 {
        handed
    } else {
        tick_next(ticks_state(handed, file, sizes.drop_last()), file, sizes.last())
    }
}

/// How many of those ticks hand `file` off.
pub open spec fn handoff_count(handed: Seq<Seq<char>>, file: Seq<char>, sizes: Seq<u64>) -> int
    decreases sizes.len(),
{
    if sizes.len() == 0 {
        0
    } else {
        handoff_count(handed, file, sizes.drop_last()) + if tick_fires(
            ticks_state(handed, file, sizes.drop_last()),
            file,
            sizes.last(),
        ) {
            1int
        } else {
            0int
        }
    }
}

/// Whether one of `sizes` is past the threshold.
pub open spec fn crosses(sizes: Seq<u64>) -> bool {
    exists|i: int| 0 <= i < sizes.len() && #[trigger] sizes[i] > UPLOAD_THRESHOLD_BYTES
}

/// Over any run of lifecycle ticks on one file, the file is handed off at
/// most once: exactly once when it was not handed off before and some tick
/// sees it past the threshold, never otherwise.
pub proof fn lemma_hand_off_once(handed: Seq<Seq<char>>, file: Seq<char>, sizes: Seq<u64>)
    ensures
        0 <= handoff_count(handed, file, sizes) <= 1,
        handoff_count(handed, file, sizes) == 1 <==> (!handed.contains(file) && crosses(sizes)),
        ticks_state(handed, file, sizes).contains(file) <==> (handed.contains(file) || crosses(sizes)),
    decreases sizes.len(),
{
    if sizes.len() > 0 {
        let prev = sizes.drop_last();
        lemma_hand_off_once(handed, file, prev);
        let st = ticks_state(handed, file, prev);
        let last = sizes.last();
        if crosses(prev) {
            let i = choose|i: int| 0 <= i < prev.len() && #[trigger] prev[i] > UPLOAD_THRESHOLD_BYTES;
            assert(sizes[i] == prev[i]);
        }
        if last > UPLOAD_THRESHOLD_BYTES {
            assert(sizes[sizes.len() - 1] == last);
        }
        if crosses(sizes) && !crosses(prev) {
            let i = choose|i: int| 0 <= i < sizes.len() && #[trigger] sizes[i] > UPLOAD_THRESHOLD_BYTES;
            if i < prev.len() {
                assert(prev[i] == sizes[i]);
            }
        }
        if tick_fires(st, file, last) {
            assert(st.push(file)[st.len() as int] == file);
        }
    }
}

/// The record of which output files have been handed to the upload pipeline,
/// so that each is handed off at most once.
pub struct UploadTrigger {
    handed: Vec<String>,
}

impl View for UploadTrigger {
    type V = Seq<Seq<char>>;

    closed spec fn view(&self) -> Seq<Seq<char>> {
        self.handed@.map_values(|s: String| s@)
    }
}

impl UploadTrigger {
    /// A record with no file handed off.
    pub fn new() -> (r: UploadTrigger)
        ensures
            r@ == Seq::<Seq<char>>::empty(),
    {
        let r = UploadTrigger { handed: Vec::new() };
        proof {
            assert(r@ =~= Seq::<Seq<char>>::empty());
        }
        r
    }

    /// Whether `file` has been handed off.
    pub fn was_handed(&self, file: &str) -> (r: bool)
        ensures
            r == self@.contains(file@),
    {
        let target = file.to_owned();
        let mut i: usize = 0;
        while i < self.handed.len()
            invariant
                0 <= i <= self.handed@.len(),
                target@ == file@,
                forall|j: int| 0 <= j < i ==> self@[j] != file@,
            decreases self.handed@.len() - i,
        {
            if self.handed[i] == target {
                proof {
                    assert(self@[i as int] == file@);
                }
                return true;
            }
            i = i + 1;
        }
        proof {
            if self@.contains(file@) {
                let j = choose|j: int| 0 <= j < self@.len() && self@[j] == file@;
                assert(self@[j] != file@);
            }
        }
        false
    }

    /// One lifecycle tick that sees `file` at `size` bytes: hands it off
    /// (returns `true`, and records it) exactly when it is past the
    /// threshold and was not handed off before.
    pub fn on_tick(&mut self, file: &str, size: u64) -> (r: bool)
        ensures
            r == tick_fires(old(self)@, file@, size),
            final(self)@ == tick_next(old(self)@, file@, size),
    {
        if size > UPLOAD_THRESHOLD_BYTES && !self.was_handed(file) {
            self.handed.push(file.to_owned());
            proof {
                assert(self@ =~= old(self)@.push(file@));
            }
            true
        } else {
            false
        }
    }
}

} // verus!
