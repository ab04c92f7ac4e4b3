//! The logical view state: surface dimensions, the texture cache and the
//! currently bound texture.
//!
//! The host program performs the platform work (window or canvas creation,
//! network fetch, GL upload, the per-frame clear) and drives a [`RenderView`]
//! with the results; every decision - whether an identifier still needs a
//! load, which handle a bind refers to, what a resize stores - lives here
//! and is verified against the model [`ViewModel`].

use vstd::prelude::*;

use crate::codec::AssetError;
use crate::codec::DecodedImage;
use crate::codec::decode_rgba;
use crate::codec::decoded_rgba;

verus! {

/// One cached texture: the source identifier it was loaded from and the
/// GPU handle the upload produced.
struct TextureEntry {
    id: String,
    handle: u32,
}

/// The mathematical state of a [`RenderView`]: the stored dimensions, the cache
/// as a map from identifier to GPU handle, and the handle bound to the 2D
/// texture target, if any.
#[verifier::ext_equal]
pub struct ViewModel {
    pub width: u32,
    pub height: u32,
    pub cache: Map<Seq<char>, u32>,
    pub bound: Option<u32>,
}

/// How a completed upload changes the view state: an identifier the cache
/// already holds changes nothing; a new one is added to the cache and its
/// texture, which the upload left bound, becomes the bound one.
pub open spec fn load_transition(m: ViewModel, id: Seq<char>, handle: u32) -> ViewModel {
    if m.cache.contains_key(id) {
        m
    } else {
        ViewModel { cache: m.cache.insert(id, handle), bound: Some(handle), ..m }
    }
}

/// How a bind request changes the view state: a cached identifier's handle
/// becomes the bound texture; a miss changes nothing.
pub open spec fn bind_transition(m: ViewModel, id: Seq<char>) -> ViewModel {
    if m.cache.contains_key(id) {
        ViewModel { bound: Some(m.cache[id]), ..m }
    } else {
        m
    }
}

/// An event the platform drive loop observed: a window close request, a
/// resize of the physical backing store, or an idle moment in which a
/// frame can be drawn (a redraw wait on native, an animation-frame tick
/// in a browser).
pub enum LoopEvent {
    CloseRequested,
    Resized(u32, u32),
    Tick,
}

/// What the drive loop must do in answer to an event.
#[derive(Debug, PartialEq, Eq, Structural)]
pub enum LoopAction {
    /// Stop driving: the session is over.
    Stop,
    /// Clear the frame with the time-driven color, present it and
    /// schedule the next tick.
    RenderFrame,
    /// Nothing to perform; keep driving.
    Continue,
}

/// The logical state shared by the platform backends.
pub struct RenderView {
    width: u32,
    height: u32,
    entries: Vec<TextureEntry>,
    bound: Option<u32>,
}

spec fn entries_map(s: Seq<TextureEntry>) -> Map<Seq<char>, u32>
    decreases s.len(),
{
    if s.len() == 0 {
        Map::empty()
    } else {
        entries_map(s.drop_last()).insert(s.last().id@, s.last().handle)
    }
}

spec fn unique_ids(s: Seq<TextureEntry>) -> bool {
    forall|i: int, j: int| 0 <= i < j < s.len() ==> s[i].id@ != s[j].id@
}

proof fn lemma_entries_map_contains(s: Seq<TextureEntry>, id: Seq<char>)
    ensures
        entries_map(s).contains_key(id) <==> exists|i: int| 0 <= i < s.len() && s[i].id@ == id,
    decreases s.len(),
{
    if s.len() > 0 {
        lemma_entries_map_contains(s.drop_last(), id);
        if s.last().id@ == id {
            assert(s[s.len() - 1].id@ == id);
        } else if entries_map(s).contains_key(id) {
            let i = choose|i: int| 0 <= i < s.drop_last().len() && s.drop_last()[i].id@ == id;
            assert(s[i].id@ == id);
        } else if exists|i: int| 0 <= i < s.len() && s[i].id@ == id {
            let i = choose|i: int| 0 <= i < s.len() && s[i].id@ == id;
            assert(s.drop_last()[i].id@ == id);
        }
    }
}

proof fn lemma_entries_map_index(s: Seq<TextureEntry>, i: int)
    requires
        unique_ids(s),
        0 <= i < s.len(),
    ensures
        entries_map(s).contains_key(s[i].id@),
        entries_map(s)[s[i].id@] == s[i].handle,
    decreases s.len(),
{
    if i < s.len() - 1 {
        assert(unique_ids(s.drop_last()));
        lemma_entries_map_index(s.drop_last(), i);
        assert(s.drop_last()[i] == s[i]);
    }
}

proof fn lemma_entries_map_len(s: Seq<TextureEntry>)
    requires
        unique_ids(s),
    ensures
        entries_map(s).dom().finite(),
        entries_map(s).dom().len() == s.len(),
    decreases s.len(),
{
    if s.len() == 0 {
        assert(entries_map(s).dom() =~= Set::<Seq<char>>::empty());
    } else {
        assert(unique_ids(s.drop_last()));
        lemma_entries_map_len(s.drop_last());
        lemma_entries_map_contains(s.drop_last(), s.last().id@);
        assert(forall|i: int|
            0 <= i < s.drop_last().len() ==> s.drop_last()[i].id@ != s.last().id@);
        assert(!entries_map(s.drop_last()).contains_key(s.last().id@));
        assert(entries_map(s).dom() =~= entries_map(s.drop_last()).dom().insert(s.last().id@));
    }
}

impl RenderView {
    /// The abstract state this `RenderView` is in.
    pub closed spec fn model(self) -> ViewModel {
        ViewModel {
            width: self.width,
            height: self.height,
            cache: entries_map(self.entries@),
            bound: self.bound,
        }
    }

    /// Well-formedness: no identifier owns two cache entries, so each is
    /// uploaded at most once and the cache map loses nothing.
    pub closed spec fn wf(self) -> bool {
        unique_ids(self.entries@)
    }

    /// Makes the view state for a drawable of the requested pixel size:
    /// no texture is cached or bound yet.
    pub fn new(width: u32, height: u32) -> (v: RenderView)
        ensures
            v.wf(),
            v.model().width == width,
            v.model().height == height,
            v.model().cache == Map::<Seq<char>, u32>::empty(),
            v.model().bound is None,
    {
        let v = RenderView { width, height, entries: Vec::new(), bound: None };
        proof {
            assert(entries_map(v.entries@) == Map::<Seq<char>, u32>::empty());
        }
        v
    }

    /// Stores the new dimensions; the cache and the bound texture are
    /// untouched. The host propagates the same size to the physical
    /// backing store (window inner size, or canvas attributes).
    pub fn resize(&mut self, new_width: u32, new_height: u32)
        ensures
            final(self).model() == (ViewModel {
                width: new_width,
                height: new_height,
                ..old(self).model()
            }),
            old(self).wf() ==> final(self).wf(),
    {
        self.width = new_width;
        self.height = new_height;
    }

    /// The stored width in pixels.
    pub fn width(&self) -> (r: u32)
        ensures
            r == self.model().width,
    {
        self.width
    }

    /// The stored height in pixels.
    pub fn height(&self) -> (r: u32)
        ensures
            r == self.model().height,
    {
        self.height
    }

    /// The handle bound to the 2D texture target, if any.
    pub fn bound_texture(&self) -> (r: Option<u32>)
        ensures
            r == self.model().bound,
    {
        self.bound
    }

    /// How many identifiers the cache holds.
    pub fn texture_count(&self) -> (r: usize)
        requires
            self.wf(),
        ensures
            r == self.model().cache.dom().len(),
    {
        proof {
            lemma_entries_map_len(self.entries@);
        }
        self.entries.len()
    }

    /// Whether `id` already owns a cache entry, that is, whether a load of
    /// `id` would be a no-op.
    pub fn texture_cached(&self, id: &str) -> (r: bool)
        ensures
            r == self.model().cache.contains_key(id@),
    {
        let key = String::from_str(id);
        let n = self.entries.len();
        let mut i: usize = 0;
        while i < n
            invariant
                n == self.entries@.len(),
                key@ == id@,
                0 <= i <= n,
                forall|j: int| 0 <= j < i ==> self.entries@[j].id@ != id@,
            decreases n - i,
        {
            if self.entries[i].id == key {
                proof {
                    lemma_entries_map_contains(self.entries@, id@);
                }
                return true;
            }
            i += 1;
        }
        proof {
            lemma_entries_map_contains(self.entries@, id@);
        }
        false
    }

    /// The cached handle of `id`, if the cache holds one.
    fn find_handle(&self, id: &str) -> (r: Option<u32>)
        requires
            self.wf(),
        ensures
            self.model().cache.contains_key(id@) ==> r == Some(self.model().cache[id@]),
            !self.model().cache.contains_key(id@) ==> r is None,
    {
        let key = String::from_str(id);
        let n = self.entries.len();
        let mut i: usize = 0;
        while i < n
            invariant
                self.wf(),
                n == self.entries@.len(),
                key@ == id@,
                0 <= i <= n,
                forall|j: int| 0 <= j < i ==> self.entries@[j].id@ != id@,
            decreases n - i,
        {
            if self.entries[i].id == key {
                proof {
                    lemma_entries_map_index(self.entries@, i as int);
                }
                return Some(self.entries[i].handle);
            }
            i += 1;
        }
        proof {
            lemma_entries_map_contains(self.entries@, id@);
        }
        None
    }

    /// Records a completed upload of `id` as `handle`. An identifier the
    /// cache already holds is left exactly as it was - the texture was
    /// uploaded when it first arrived, and a repeated load is a no-op.
    /// Otherwise the handle joins the cache and, since the upload bound
    /// the fresh texture to the 2D target, becomes the bound texture.
    pub fn load_texture(&mut self, id: &str, handle: u32)
        requires
            old(self).wf(),
        ensures
            final(self).wf(),
            final(self).model() == load_transition(old(self).model(), id@, handle),
    {
        if self.texture_cached(id) {
            return;
        }
        proof {
            lemma_entries_map_contains(self.entries@, id@);
        }
        let key = String::from_str(id);
        self.entries.push(TextureEntry { id: key, handle });
        self.bound = Some(handle);
        proof {
            assert(self.entries@.drop_last() =~= old(self).entries@);
            assert(self.model() =~= load_transition(old(self).model(), id@, handle));
        }
    }

    /// Binds the cached texture of `id` to the 2D target and returns its
    /// handle, for the host to hand to the graphics API. A miss changes
    /// nothing and returns `None`: callers are responsible for having
    /// loaded the identifier first.
    pub fn bind_texture(&mut self, id: &str) -> (r: Option<u32>)
        requires
            old(self).wf(),
        ensures
            final(self).wf(),
            final(self).model() == bind_transition(old(self).model(), id@),
            old(self).model().cache.contains_key(id@) ==> r == Some(
                old(self).model().cache[id@],
            ),
            !old(self).model().cache.contains_key(id@) ==> r is None,
    {
        let found = self.find_handle(id);
        match found {
            Some(handle) => {
                self.bound = Some(handle);
                proof {
                    assert(self.model() =~= bind_transition(old(self).model(), id@));
                }
                Some(handle)
            },
            None => None,
        }
    }

    /// The drive loop hands every event it observes here and performs
    /// what the answer says: a close request stops the loop, a resize is
    /// absorbed into the stored dimensions, and an idle tick draws one
    /// frame. Only a resize changes the view state.
    pub fn handle_event(&mut self, event: &LoopEvent) -> (r: LoopAction)
        ensures
            old(self).wf() ==> final(self).wf(),
            (*event matches LoopEvent::CloseRequested ==> r == LoopAction::Stop
                && final(self).model() == old(self).model()),
            (*event matches LoopEvent::Resized(w, h) ==> r == LoopAction::Continue
                && final(self).model() == (ViewModel {
                width: w,
                height: h,
                ..old(self).model()
            })),
            (*event matches LoopEvent::Tick ==> r == LoopAction::RenderFrame
                && final(self).model() == old(self).model()),
    {
        match event {
            LoopEvent::CloseRequested => LoopAction::Stop,
            LoopEvent::Resized(w, h) => {
                self.resize(*w, *h);
                LoopAction::Continue
            },
            LoopEvent::Tick => LoopAction::RenderFrame,
        }
    }

    /// Decodes fetched image bytes into the RGBA8 pixel buffer that the
    /// host uploads. Succeeds exactly on the byte streams the codec
    /// accepts; malformed bytes give [`AssetError::DecodeFailed`].
    pub fn decode_image(bytes: &Vec<u8>) -> (r: Result<DecodedImage, AssetError>)
        ensures
            r is Ok <==> decoded_rgba(bytes@) is Some,
            (r matches Ok(img) ==> decoded_rgba(bytes@) == Some(
                (img.width, img.height, img.pixels@),
            ) && img.pixels@.len() == 4 * (img.width as nat) * (img.height as nat)),
    {
        decode_rgba(bytes)
    }
}

/// Law: a repeated load is a no-op. Once an identifier has gone through
/// [`load_transition`], any further load of the same identifier - with
/// whatever handle a second upload might have produced - leaves the state,
/// and with it the cache and its size, exactly as it was.
pub proof fn lemma_load_idempotent(m: ViewModel, id: Seq<char>, h1: u32, h2: u32)
    ensures
        load_transition(load_transition(m, id, h1), id, h2) == load_transition(m, id, h1),
{
    assert(load_transition(m, id, h1).cache.contains_key(id));
}

/// Law: cache isolation. Loading two distinct identifiers into a cache
/// that holds neither gives each its own entry with its own handle, and
/// the cache grows by exactly two.
pub proof fn lemma_cache_isolation(m: ViewModel, id1: Seq<char>, id2: Seq<char>, h1: u32, h2: u32)
    requires
        id1 != id2,
        !m.cache.contains_key(id1),
        !m.cache.contains_key(id2),
        m.cache.dom().finite(),
    ensures
        load_transition(load_transition(m, id1, h1), id2, h2).cache[id1] == h1,
        load_transition(load_transition(m, id1, h1), id2, h2).cache[id2] == h2,
        load_transition(load_transition(m, id1, h1), id2, h2).cache.dom().len() == m.cache.dom().len()
            + 2,
{
    assert(m.cache.insert(id1, h1).dom() =~= m.cache.dom().insert(id1));
    assert(m.cache.insert(id1, h1).insert(id2, h2).dom() =~= m.cache.dom().insert(id1).insert(
        id2,
    ));
}

/// Law: binding never touches the cache or the dimensions, whichever
/// identifier is asked for - only the bound texture can change.
pub proof fn lemma_bind_preserves_cache(m: ViewModel, id: Seq<char>)
    ensures
        bind_transition(m, id).cache == m.cache,
        bind_transition(m, id).width == m.width,
        bind_transition(m, id).height == m.height,
{
}

/// Law: miss safety. Binding an identifier the cache does not hold
/// changes nothing at all, the bound texture included.
pub proof fn lemma_bind_miss_noop(m: ViewModel, id: Seq<char>)
    requires
        !m.cache.contains_key(id),
    ensures
        bind_transition(m, id) == m,
{
}

/// Law: a cache entry, once made, is immutable. No later load or bind -
/// of the same identifier or of any other - evicts it or changes its
/// handle.
pub proof fn lemma_cache_entry_immutable(m: ViewModel, id0: Seq<char>, id: Seq<char>, h: u32)
    requires
        m.cache.contains_key(id0),
    ensures
        load_transition(m, id, h).cache.contains_key(id0),
        load_transition(m, id, h).cache[id0] == m.cache[id0],
        bind_transition(m, id).cache.contains_key(id0),
        bind_transition(m, id).cache[id0] == m.cache[id0],
{
}

} // verus!
