//! Parser for PMDCollab AnimData.xml files.
//!
//! Each creature in the PMDCollab sprite repository has an AnimData.xml that
//! describes every available animation: frame dimensions and per-frame durations.
//! We parse this to know how to cut up sprite sheets and time animations.
use crate::text::{
    before_first, chars_of, find, find_in, parse_u32, parse_u32_range, split_tail, string_from_chars, trim,
    trim_range, segments,
};
use vstd::prelude::*;

verus! {

/// Information about a single animation (e.g. "Idle", "Sleep", "Eat").
#[derive(Debug)]
pub struct AnimInfo {
    /// Width of each frame in pixels
    pub frame_width: u32,
    /// Height of each frame in pixels
    pub frame_height: u32,
    /// Duration of each frame in game ticks (1 tick ≈ 50ms)
    pub durations: Vec<u32>,
}

/// The mathematical content of an [`AnimInfo`].
pub struct AnimInfoView {
    pub frame_width: u32,
    pub frame_height: u32,
    pub durations: Seq<u32>,
}

impl View for AnimInfo {
    type V = AnimInfoView;

    open spec fn view(&self) -> AnimInfoView {
        AnimInfoView {
            frame_width: self.frame_width,
            frame_height: self.frame_height,
            durations: self.durations@,
        }
    }
}

impl Clone for AnimInfo {
    fn clone(&self) -> (r: Self)
        ensures
            r@ == self@,
    {
        AnimInfo {
            frame_width: self.frame_width,
            frame_height: self.frame_height,
            durations: self.durations.clone(),
        }
    }
}

/// Sum of a sequence of tick counts.
pub open spec fn total_ticks(d: Seq<u32>) -> nat
    decreases d.len(),
{
    if d.len() == 0 {
        0
    } else {
        total_ticks(d.drop_last()) + d.last() as nat
    }
}

impl AnimInfo {
    /// Total number of frames in this animation.
    pub fn frame_count(&self) -> (n: usize)
        ensures
            n == self.durations@.len(),
    {
        self.durations.len()
    }

    /// Total duration of one full animation cycle in milliseconds.
    /// Each tick is ~50ms.
    pub fn total_duration_ms(&self) -> (ms: u64)
        requires
            total_ticks(self.durations@) * 50 <= u64::MAX,
        ensures
            ms == total_ticks(self.durations@) * 50,
    {
        let mut sum: u64 = 0;
        let mut i: usize = 0;
        while i < self.durations.len()
            invariant
                i <= self.durations@.len(),
                total_ticks(self.durations@) * 50 <= u64::MAX,
                sum == total_ticks(self.durations@.take(i as int)) * 50,
            decreases self.durations.len() - i,
        {
            proof {
                assert(self.durations@.take(i + 1).drop_last() =~= self.durations@.take(i as int));
                lemma_total_ticks_prefix(self.durations@, i + 1);
            }
            sum = sum + self.durations[i] as u64 * 50;
            i = i + 1;
        }
        assert(self.durations@.take(i as int) =~= self.durations@);
        sum
    }
}

proof fn lemma_total_ticks_prefix(d: Seq<u32>, i: int)
    requires
        0 <= i <= d.len(),
    ensures
        total_ticks(d.take(i)) <= total_ticks(d),
    decreases d.len() - i,
{
    if i < d.len() {
        lemma_total_ticks_prefix(d, i + 1);
        assert(d.take(i + 1).drop_last() =~= d.take(i));
    } else {
        assert(d.take(i) =~= d);
    }
}

// ───────────────────────── the name → info table ─────────────────────────

/// The map that a sequence of `(name, info)` entries denotes, later entries
/// taking precedence over earlier ones with the same name.
pub open spec fn entries_map(s: Seq<(Seq<char>, AnimInfoView)>) -> Map<Seq<char>, AnimInfoView>
    decreases s.len(),
{
    if s.len() == 0 {
        Map::empty()
    } else {
        entries_map(s.drop_last()).insert(s.last().0, s.last().1)
    }
}

pub open spec fn keys_distinct(s: Seq<(Seq<char>, AnimInfoView)>) -> bool {
    forall|i: int, j: int| 0 <= i < s.len() && 0 <= j < s.len() && i != j ==> #[trigger] s[i].0 != #[trigger] s[j].0
}

proof fn lemma_entries_map(s: Seq<(Seq<char>, AnimInfoView)>)
    ensures
        entries_map(s).dom().finite(),
        forall|k: Seq<char>| #[trigger] entries_map(s).dom().contains(k) <==> exists|i: int|
            0 <= i < s.len() && s[i].0 == k,
        keys_distinct(s) ==> entries_map(s).dom().len() == s.len(),
        keys_distinct(s) ==> forall|i: int| 0 <= i < s.len() ==> entries_map(s)[#[trigger] s[i].0] == s[i].1,
    decreases s.len(),
{
    if s.len() > 0 {
        let p = s.drop_last();
        lemma_entries_map(p);
        assert forall|k: Seq<char>| #[trigger] entries_map(s).dom().contains(k) <==> exists|i: int|
            0 <= i < s.len() && s[i].0 == k by {
            if entries_map(p).dom().contains(k) {
                let i = choose|i: int| 0 <= i < p.len() && p[i].0 == k;
                assert(s[i].0 == k);
            }
            if exists|i: int| 0 <= i < s.len() && s[i].0 == k {
                let i = choose|i: int| 0 <= i < s.len() && s[i].0 == k;
                if i < s.len() - 1 {
                    assert(p[i].0 == k);
                }
            }
        }
        if keys_distinct(s) {
            assert(keys_distinct(p)) by {
                assert forall|i: int, j: int| 0 <= i < p.len() && 0 <= j < p.len() && i != j implies
                    #[trigger] p[i].0 != #[trigger] p[j].0 by {
                    assert(s[i].0 != s[j].0);
                }
            }
            assert(!entries_map(p).dom().contains(s.last().0)) by {
                if entries_map(p).dom().contains(s.last().0) {
                    let i = choose|i: int| 0 <= i < p.len() && p[i].0 == s.last().0;
                    assert(s[i].0 == s[s.len() - 1].0);
                }
            }
            assert forall|i: int| 0 <= i < s.len() implies entries_map(s)[#[trigger] s[i].0] == s[i].1 by {
                if i < s.len() - 1 {
                    assert(p[i].0 == s[i].0);
                    assert(s[i].0 != s[s.len() - 1].0);
                }
            }
        }
    }
}

proof fn lemma_entries_map_update(s: Seq<(Seq<char>, AnimInfoView)>, i: int, v: AnimInfoView)
    requires
        keys_distinct(s),
        0 <= i < s.len(),
    ensures
        keys_distinct(s.update(i, (s[i].0, v))),
        entries_map(s.update(i, (s[i].0, v))) == entries_map(s).insert(s[i].0, v),
{
    let t = s.update(i, (s[i].0, v));
    assert(keys_distinct(t)) by {
        assert forall|a: int, b: int| 0 <= a < t.len() && 0 <= b < t.len() && a != b implies
            #[trigger] t[a].0 != #[trigger] t[b].0 by {
            assert(s[a].0 != s[b].0);
        }
    }
    lemma_entries_map(s);
    lemma_entries_map(t);
    let lhs = entries_map(t);
    let rhs = entries_map(s).insert(s[i].0, v);
    assert forall|k: Seq<char>| #[trigger] lhs.dom().contains(k) <==> rhs.dom().contains(k) by {
        if lhs.dom().contains(k) {
            let j = choose|j: int| 0 <= j < t.len() && t[j].0 == k;
            assert(s[j].0 == k);
        }
        if rhs.dom().contains(k) && k != s[i].0 {
            let j = choose|j: int| 0 <= j < s.len() && s[j].0 == k;
            assert(t[j].0 == k);
        }
        if k == s[i].0 {
            assert(t[i].0 == k);
        }
    }
    assert forall|k: Seq<char>| #[trigger] lhs.dom().contains(k) implies lhs[k] == rhs[k] by {
        let j = choose|j: int| 0 <= j < t.len() && t[j].0 == k;
        assert(lhs[t[j].0] == t[j].1);
        if j != i {
            assert(entries_map(s)[s[j].0] == s[j].1);
        }
    }
    assert(lhs =~= rhs);
}

/// The parsed animations of one AnimData.xml, keyed by animation name.
///
/// The table is a list of `(name, info)` entries whose names are kept
/// distinct, rather than a `HashMap` with `String` keys: with such keys
/// vstd's specification of `HashMap` lets nothing be proved of a lookup,
/// while over this list every insertion and lookup is verified against the
/// map view.
pub struct AnimInfoMap {
    entries: Vec<(String, AnimInfo)>,
}

impl AnimInfoMap {
    pub closed spec fn entry_views(self) -> Seq<(Seq<char>, AnimInfoView)> {
        self.entries@.map_values(|e: (String, AnimInfo)| (e.0@, e.1@))
    }

    #[verifier::type_invariant]
    closed spec fn names_distinct(self) -> bool {
        keys_distinct(self.entry_views())
    }

    /// An empty table.
    pub fn new() -> (m: Self)
        ensures
            m@ == Map::<Seq<char>, AnimInfoView>::empty(),
    {
        let m = AnimInfoMap { entries: Vec::new() };
        assert(m.entry_views() =~= Seq::<(Seq<char>, AnimInfoView)>::empty());
        m
    }

    /// Number of distinct animation names.
    pub fn len(&self) -> (n: usize)
        ensures
            n == self@.dom().len(),
    {
        proof {
            use_type_invariant(self);
            lemma_entries_map(self.entry_views());
        }
        self.entries.len()
    }

    /// Whether the table holds no animation.
    pub fn is_empty(&self) -> (b: bool)
        ensures
            b == (self@.dom().len() == 0),
    {
        self.len() == 0
    }

    fn position(&self, name: &String) -> (r: Option<usize>)
        ensures
            match r {
                Some(i) => i < self.entries@.len() && self.entry_views()[i as int].0 == name@,
                None => !self@.dom().contains(name@),
            },
    {
        proof {
            lemma_entries_map(self.entry_views());
        }
        let mut i: usize = 0;
        while i < self.entries.len()
            invariant
                i <= self.entries@.len(),
                forall|k: int| 0 <= k < i ==> #[trigger] self.entry_views()[k].0 != name@,
            decreases self.entries.len() - i,
        {
            if self.entries[i].0 == *name {
                return Some(i);
            }
            i = i + 1;
        }
        None
    }

    /// Whether an animation of this name is present.
    pub fn contains_key(&self, name: &str) -> (b: bool)
        ensures
            b == self@.dom().contains(name@),
    {
        proof {
            lemma_entries_map(self.entry_views());
        }
        let key = String::from_str(name);
        match self.position(&key) {
            Some(i) => {
                assert(self.entry_views()[i as int].0 == name@);
                true
            },
            None => false,
        }
    }

    /// The animation of this name, if present.
    pub fn get(&self, name: &str) -> (r: Option<&AnimInfo>)
        ensures
            match r {
                Some(info) => self@.dom().contains(name@) && self@[name@] == info@,
                None => !self@.dom().contains(name@),
            },
    {
        proof {
            use_type_invariant(self);
            lemma_entries_map(self.entry_views());
        }
        let key = String::from_str(name);
        match self.position(&key) {
            Some(i) => {
                assert(self.entry_views()[i as int].0 == name@);
                Some(&self.entries[i].1)
            },
            None => None,
        }
    }

    /// Set the animation for `name`, replacing any earlier one of that name.
    fn insert(&mut self, name: String, info: AnimInfo)
        ensures
            final(self)@ == old(self)@.insert(name@, info@),
    {
        proof {
            use_type_invariant(&*self);
        }
        let ghost old_views = self.entry_views();
        let pos = self.position(&name);
        let mut entries: Vec<(String, AnimInfo)> = Vec::new();
        std::mem::swap(&mut entries, &mut self.entries);
        assert(entries@.map_values(|e: (String, AnimInfo)| (e.0@, e.1@)) == old_views);
        match pos {
            Some(i) => {
                let ghost iv = info@;
                entries.set(i, (name, info));
                proof {
                    lemma_entries_map_update(old_views, i as int, iv);
                    assert(entries@.map_values(|e: (String, AnimInfo)| (e.0@, e.1@)) =~= old_views.update(
                        i as int,
                        (old_views[i as int].0, iv),
                    ));
                }
            },
            None => {
                let ghost nv = name@;
                let ghost iv = info@;
                entries.push((name, info));
                proof {
                    lemma_entries_map(old_views);
                    assert(entries@.map_values(|e: (String, AnimInfo)| (e.0@, e.1@)) =~= old_views.push((nv, iv)));
                    assert(old_views.push((nv, iv)).drop_last() =~= old_views);
                    assert forall|a: int, b: int|
                        0 <= a < old_views.len() + 1 && 0 <= b < old_views.len() + 1 && a != b implies
                        #[trigger] old_views.push((nv, iv))[a].0 != #[trigger] old_views.push((nv, iv))[b].0 by {
                        if a == old_views.len() {
                            assert(old_views[b].0 != nv);
                        } else if b == old_views.len() {
                            assert(old_views[a].0 != nv);
                        }
                    }
                }
            },
        }
        self.entries = entries;
    }
}

impl View for AnimInfoMap {
    type V = Map<Seq<char>, AnimInfoView>;

    closed spec fn view(&self) -> Map<Seq<char>, AnimInfoView> {
        entries_map(self.entry_views())
    }
}


// ───────────────────────── the document grammar ─────────────────────────

/// The text between the first `open` and the first `close` after it,
/// trimmed; `None` when either tag is missing.
pub open spec fn extract_between(block: Seq<char>, open: Seq<char>, close: Seq<char>) -> Option<Seq<char>> {
    match find(block, open) {
        None => None,
        Some(i) => {
            let start = i + open.len();
            match find(block.skip(start as int), close) {
                None => None,
                Some(j) => Some(trim(block.subrange(start as int, (start + j) as int))),
            }
        },
    }
}

pub open spec fn parse_u32_opt(o: Option<Seq<char>>) -> Option<u32> {
    match o {
        Some(t) => parse_u32(t),
        None => None,
    }
}

/// The value one `<Duration>` piece contributes: its number, if the piece
/// has a closing tag and the text before it parses.
pub open spec fn duration_of_part(part: Seq<char>) -> Seq<u32> {
    match find(part, "</Duration>"@) {
        Some(e) => match parse_u32(trim(part.take(e as int))) {
            Some(v) => seq![v],
            None => seq![],
        },
        None => seq![],
    }
}

pub open spec fn durations_of_parts(parts: Seq<Seq<char>>) -> Seq<u32>
    decreases parts.len(),
{
    if parts.len() == 0 {
        seq![]
    } else {
        durations_of_parts(parts.drop_last()) + duration_of_part(parts.last())
    }
}

/// All well-formed `<Duration>N</Duration>` values of a block, in order.
pub open spec fn block_durations(block: Seq<char>) -> Seq<u32> {
    durations_of_parts(split_tail(block, "<Duration>"@))
}

/// One `<Anim>` block read as `(name, info)`; `None` when the name, either
/// dimension, or every duration is missing or malformed.
pub open spec fn parse_block(block: Seq<char>) -> Option<(Seq<char>, AnimInfoView)> {
    match extract_between(block, "<Name>"@, "</Name>"@) {
        None => None,
        Some(name) => match parse_u32_opt(extract_between(block, "<FrameWidth>"@, "</FrameWidth>"@)) {
            None => None,
            Some(fw) => match parse_u32_opt(extract_between(block, "<FrameHeight>"@, "</FrameHeight>"@)) {
                None => None,
                Some(fh) => {
                    let d = block_durations(block);
                    if d.len() == 0 {
                        None
                    } else {
                        Some((name, AnimInfoView { frame_width: fw, frame_height: fh, durations: d }))
                    }
                },
            },
        },
    }
}

/// The table built from the pieces that follow each `<Anim>`, in document
/// order, a later animation replacing an earlier one of the same name.
pub open spec fn anims_from_pieces(pieces: Seq<Seq<char>>) -> Map<Seq<char>, AnimInfoView>
    decreases pieces.len(),
{
    if pieces.len() == 0 {
        Map::empty()
    } else {
        let m = anims_from_pieces(pieces.drop_last());
        match parse_block(before_first(pieces.last(), "</Anim>"@)) {
            Some((n, info)) => m.insert(n, info),
            None => m,
        }
    }
}

/// What `parse_anim_data` returns for a document.
pub open spec fn anim_data_spec(xml: Seq<char>) -> Map<Seq<char>, AnimInfoView> {
    anims_from_pieces(split_tail(xml, "<Anim>"@))
}

/// The animation that the text following one `<Anim>` describes: the
/// block up to its `</Anim>`, read by [`parse_block`].
pub open spec fn anim_block(piece: Seq<char>) -> Option<(Seq<char>, AnimInfoView)> {
    parse_block(before_first(piece, "</Anim>"@))
}

/// Whether piece `i` describes an animation named `name`.
pub open spec fn block_named(pieces: Seq<Seq<char>>, i: int, name: Seq<char>) -> bool {
    anim_block(pieces[i]) matches Some((n, _)) && n == name
}

proof fn lemma_anims_from_pieces(pieces: Seq<Seq<char>>)
    ensures
        forall|k: Seq<char>| #[trigger] anims_from_pieces(pieces).dom().contains(k) <==> exists|i: int|
            0 <= i < pieces.len() && #[trigger] block_named(pieces, i, k),
        forall|k: Seq<char>| #[trigger] anims_from_pieces(pieces).dom().contains(k) ==> exists|i: int|
            0 <= i < pieces.len() && #[trigger] anim_block(pieces[i]) == Some((k, anims_from_pieces(pieces)[k]))
                && forall|j: int| i < j < pieces.len() ==> !#[trigger] block_named(pieces, j, k),
        forall|k: Seq<char>| #[trigger] anims_from_pieces(pieces).dom().contains(k) ==> anims_from_pieces(
            pieces,
        )[k].durations.len() > 0,
    decreases pieces.len(),
{
    if pieces.len() > 0 {
        let init = pieces.drop_last();
        let last = (pieces.len() - 1) as int;
        lemma_anims_from_pieces(init);
        let m0 = anims_from_pieces(init);
        let m = anims_from_pieces(pieces);
        assert forall|i: int, k: Seq<char>| 0 <= i < last implies block_named(pieces, i, k) == block_named(
            init,
            i,
            k,
        ) && anim_block(pieces[i]) == anim_block(init[i]) by {
            assert(pieces[i] == init[i]);
        }
        assert forall|k: Seq<char>| #[trigger] m.dom().contains(k) <==> exists|i: int|
            0 <= i < pieces.len() && #[trigger] block_named(pieces, i, k) by {
            if m.dom().contains(k) {
                if block_named(pieces, last, k) {
                } else {
                    assert(m0.dom().contains(k));
                    let i = choose|i: int| 0 <= i < init.len() && #[trigger] block_named(init, i, k);
                    assert(block_named(pieces, i, k));
                }
            }
            if exists|i: int| 0 <= i < pieces.len() && #[trigger] block_named(pieces, i, k) {
                let i = choose|i: int| 0 <= i < pieces.len() && #[trigger] block_named(pieces, i, k);
                if i < last {
                    assert(block_named(init, i, k));
                    assert(m0.dom().contains(k));
                }
            }
        }
        assert forall|k: Seq<char>| #[trigger] m.dom().contains(k) implies exists|i: int|
            0 <= i < pieces.len() && #[trigger] anim_block(pieces[i]) == Some((k, m[k]))
                && forall|j: int| i < j < pieces.len() ==> !#[trigger] block_named(pieces, j, k) by {
            if block_named(pieces, last, k) {
                assert(anim_block(pieces[last]) == Some((k, m[k])));
            } else {
                assert(m0.dom().contains(k));
                assert(m[k] == m0[k]);
                let i = choose|i: int|
                    0 <= i < init.len() && #[trigger] anim_block(init[i]) == Some((k, m0[k])) && forall|j: int|
                        i < j < init.len() ==> !#[trigger] block_named(init, j, k);
                assert(anim_block(pieces[i]) == Some((k, m[k])));
                assert forall|j: int| i < j < pieces.len() implies !#[trigger] block_named(pieces, j, k) by {
                    if j < last {
                        assert(!block_named(init, j, k));
                    }
                }
            }
        }
        assert forall|k: Seq<char>| #[trigger] m.dom().contains(k) implies m[k].durations.len() > 0 by {
            if !block_named(pieces, last, k) {
                assert(m0.dom().contains(k));
            }
        }
    }
}

/// What `parse_anim_data` reads from a document: an animation of a given
/// name is in the table exactly when some `<Anim>` block with that name has
/// a width, a height and at least one duration that parse; its entry is the
/// one read from the last such block, and it always has durations.
pub proof fn law_anim_data_last_block_wins(xml: Seq<char>)
    ensures
        ({
            let pieces = split_tail(xml, "<Anim>"@);
            let table = anim_data_spec(xml);
            &&& forall|k: Seq<char>| #[trigger] table.dom().contains(k) <==> exists|i: int|
                0 <= i < pieces.len() && #[trigger] block_named(pieces, i, k)
            &&& forall|k: Seq<char>| #[trigger] table.dom().contains(k) ==> exists|i: int|
                0 <= i < pieces.len() && #[trigger] anim_block(pieces[i]) == Some((k, table[k]))
                    && forall|j: int| i < j < pieces.len() ==> !#[trigger] block_named(pieces, j, k)
            &&& forall|k: Seq<char>| #[trigger] table.dom().contains(k) ==> table[k].durations.len() > 0
        }),
{
    lemma_anims_from_pieces(split_tail(xml, "<Anim>"@));
}

// ───────────────────────── the parser ─────────────────────────

/// A `String` of the characters `v[lo..hi]`.
fn string_of_range(v: &Vec<char>, lo: usize, hi: usize) -> (s: String)
    requires
        lo <= hi <= v@.len(),
    ensures
        s@ == v@.subrange(lo as int, hi as int),
{
    let mut out: Vec<char> = Vec::new();
    let mut i: usize = lo;
    while i < hi
        invariant
            lo <= i <= hi <= v@.len(),
            out@ == v@.subrange(lo as int, i as int),
        decreases hi - i,
    {
        out.push(v[i]);
        i = i + 1;
        assert(out@ =~= v@.subrange(lo as int, i as int));
    }
    string_from_chars(&out)
}

/// Extract the text content of a simple XML tag like `<Name>Idle</Name>` from
/// the block `v[lo..hi]`, as the bounds of the trimmed text inside `v`.
fn extract_tag_value(v: &Vec<char>, lo: usize, hi: usize, open: &Vec<char>, close: &Vec<char>) -> (r: Option<(usize, usize)>)
    requires
        lo <= hi <= v@.len(),
    ensures
        match r {
            Some((a, b)) => a <= b <= v@.len()
                && extract_between(v@.subrange(lo as int, hi as int), open@, close@) == Some(v@.subrange(a as int, b as int)),
            None => extract_between(v@.subrange(lo as int, hi as int), open@, close@) is None,
        },
{
    let ghost block = v@.subrange(lo as int, hi as int);
    match find_in(v, lo, hi, open) {
        None => None,
        Some(i) => {
            let start = i + open.len();
            assert(block.skip(start - lo) =~= v@.subrange(start as int, hi as int));
            match find_in(v, start, hi, close) {
                None => None,
                Some(j) => {
                    assert(block.subrange(start - lo, j - lo) =~= v@.subrange(start as int, j as int));
                    let (a, b) = trim_range(v, start, j);
                    Some((a, b))
                },
            }
        },
    }
}

/// Extract all `<Duration>N</Duration>` values from the block `v[lo..hi]`.
fn extract_durations(v: &Vec<char>, lo: usize, hi: usize) -> (r: Vec<u32>)
    requires
        lo <= hi <= v@.len(),
    ensures
        r@ == block_durations(v@.subrange(lo as int, hi as int)),
{
    let open = chars_of("<Duration>");
    let close = chars_of("</Duration>");
    proof {
        reveal_strlit("<Duration>");
    }
    let ghost block = v@.subrange(lo as int, hi as int);
    let mut durations: Vec<u32> = Vec::new();
    match find_in(v, lo, hi, &open) {
        None => {
            assert(split_tail(block, open@) =~= Seq::<Seq<char>>::empty());
            durations
        },
        Some(i0) => {
            let mut cur = i0 + open.len();
            assert(block.skip(cur - lo) =~= v@.subrange(cur as int, hi as int));
            let ghost mut done: Seq<Seq<char>> = seq![];
            assert(split_tail(block, open@) =~= done + segments(v@.subrange(cur as int, hi as int), open@));
            loop
                invariant
                    lo <= cur <= hi <= v@.len(),
                    open@ == "<Duration>"@,
                    close@ == "</Duration>"@,
                    open@.len() == 10,
                    block == v@.subrange(lo as int, hi as int),
                    split_tail(block, open@) == done + segments(v@.subrange(cur as int, hi as int), open@),
                    durations@ == durations_of_parts(done),
                decreases hi - cur,
            {
                let ghost rest = v@.subrange(cur as int, hi as int);
                let next = find_in(v, cur, hi, &open);
                let piece_end = match next {
                    Some(j) => j,
                    None => hi,
                };
                let ghost piece = v@.subrange(cur as int, piece_end as int);
                let ghost old_done = done;
                match find_in(v, cur, piece_end, &close) {
                    Some(e) => {
                        assert(piece.take(e - cur) =~= v@.subrange(cur as int, e as int));
                        let (a, b) = trim_range(v, cur, e);
                        match parse_u32_range(v, a, b) {
                            Some(val) => {
                                durations.push(val);
                            },
                            None => {},
                        }
                    },
                    None => {},
                }
                proof {
                    done = done.push(piece);
                    assert(done.drop_last() =~= old_done);
                    assert(durations@ =~= durations_of_parts(done));
                }
                match next {
                    None => {
                        assert(piece =~= rest);
                        assert(split_tail(block, open@) =~= done);
                        return durations;
                    },
                    Some(j) => {
                        assert(rest.take(j - cur) =~= piece);
                        assert(rest.skip(j - cur + 10) =~= v@.subrange(j + 10, hi as int));
                        assert(segments(rest, open@) =~= seq![piece] + segments(v@.subrange(j + 10, hi as int), open@));
                        assert(old_done + segments(rest, open@) =~= done + segments(v@.subrange(j + 10, hi as int), open@));
                        cur = j + open.len();
                    },
                }
            }
        },
    }
}

/// Parse the block `v[lo..hi]` of one `<Anim>` element.
fn parse_block_range(v: &Vec<char>, lo: usize, hi: usize) -> (r: Option<(String, AnimInfo)>)
    requires
        lo <= hi <= v@.len(),
    ensures
        match r {
            Some((n, info)) => parse_block(v@.subrange(lo as int, hi as int)) == Some((n@, info@)),
            None => parse_block(v@.subrange(lo as int, hi as int)) is None,
        },
{
    let name_open = chars_of("<Name>");
    let name_close = chars_of("</Name>");
    let (na, nb) = match extract_tag_value(v, lo, hi, &name_open, &name_close) {
        Some(r) => r,
        None => return None,
    };
    let w_open = chars_of("<FrameWidth>");
    let w_close = chars_of("</FrameWidth>");
    let frame_width = match extract_tag_value(v, lo, hi, &w_open, &w_close) {
        Some((a, b)) => match parse_u32_range(v, a, b) {
            Some(n) => n,
            None => return None,
        },
        None => return None,
    };
    let h_open = chars_of("<FrameHeight>");
    let h_close = chars_of("</FrameHeight>");
    let frame_height = match extract_tag_value(v, lo, hi, &h_open, &h_close) {
        Some((a, b)) => match parse_u32_range(v, a, b) {
            Some(n) => n,
            None => return None,
        },
        None => return None,
    };
    let durations = extract_durations(v, lo, hi);
    if durations.len() == 0 {
        return None;
    }
    let name = string_of_range(v, na, nb);
    Some((name, AnimInfo { frame_width, frame_height, durations }))
}

/// Parse an AnimData.xml string into a table of animation name → AnimInfo.
///
/// The XML format looks like:
/// ```xml
/// <AnimData>
///   <Anims>
///     <Anim>
///       <Name>Idle</Name>
///       <FrameWidth>40</FrameWidth>
///       <FrameHeight>56</FrameHeight>
///       <Durations>
///         <Duration>40</Duration>
///         <Duration>2</Duration>
///       </Durations>
///     </Anim>
///     ...
///   </Anims>
/// </AnimData>
/// ```
///
/// The XML is very regular, so it is read with plain string scanning:
/// every text following an `<Anim>` up to its `</Anim>` is one block, and a
/// block missing its name, a dimension, or all durations is skipped.
pub fn parse_anim_data(xml: &str) -> (r: AnimInfoMap)
    ensures
        r@ == anim_data_spec(xml@),
{
    let v = chars_of(xml);
    let n = v.len();
    let open = chars_of("<Anim>");
    let close = chars_of("</Anim>");
    proof {
        reveal_strlit("<Anim>");
    }
    let ghost doc = v@.subrange(0, n as int);
    assert(doc =~= xml@);
    let mut result = AnimInfoMap::new();
    match find_in(&v, 0, n, &open) {
        None => {
            assert(split_tail(doc, open@) =~= Seq::<Seq<char>>::empty());
            result
        },
        Some(i0) => {
            let mut cur = i0 + open.len();
            assert(doc.skip(cur as int) =~= v@.subrange(cur as int, n as int));
            let ghost mut done: Seq<Seq<char>> = seq![];
            assert(split_tail(doc, open@) =~= done + segments(v@.subrange(cur as int, n as int), open@));
            loop
                invariant
                    cur <= n == v@.len(),
                    doc == xml@,
                    open@ == "<Anim>"@,
                    close@ == "</Anim>"@,
                    open@.len() == 6,
                    split_tail(doc, open@) == done + segments(v@.subrange(cur as int, n as int), open@),
                    result@ == anims_from_pieces(done),
                decreases n - cur,
            {
                let ghost rest = v@.subrange(cur as int, n as int);
                let next = find_in(&v, cur, n, &open);
                let piece_end = match next {
                    Some(j) => j,
                    None => n,
                };
                let ghost piece = v@.subrange(cur as int, piece_end as int);
                let ghost old_done = done;
                let block_end = match find_in(&v, cur, piece_end, &close) {
                    Some(k) => {
                        assert(piece.take(k - cur) =~= v@.subrange(cur as int, k as int));
                        k
                    },
                    None => piece_end,
                };
                assert(before_first(piece, close@) == v@.subrange(cur as int, block_end as int));
                match parse_block_range(&v, cur, block_end) {
                    Some((name, info)) => {
                        result.insert(name, info);
                    },
                    None => {},
                }
                proof {
                    done = done.push(piece);
                    assert(done.drop_last() =~= old_done);
                }
                match next {
                    None => {
                        assert(piece =~= rest);
                        assert(split_tail(doc, open@) =~= done);
                        return result;
                    },
                    Some(j) => {
                        assert(rest.take(j - cur) =~= piece);
                        assert(rest.skip(j - cur + 6) =~= v@.subrange(j + 6, n as int));
                        assert(segments(rest, open@) =~= seq![piece] + segments(v@.subrange(j + 6, n as int), open@));
                        assert(old_done + segments(rest, open@) =~= done + segments(v@.subrange(j + 6, n as int), open@));
                        cur = j + open.len();
                    },
                }
            }
        },
    }
}

} // verus!
