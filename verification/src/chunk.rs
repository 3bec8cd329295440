//! The chunk entity and the arena that links chunks into a list.

use vstd::prelude::*;

verus! {

/// One contiguous span `[start, end)` of the original text buffer.
///
/// `original` is the snapshot taken at construction and is never mutated by
/// this core; `content` starts out equal to it and may later be overwritten
/// by the editing layer, together with `intro` and `outro` (the text rendered
/// immediately before and after `content`).  `previous` and `next` are
/// non-owning positions in the surrounding [`ChunkList`] arena.
pub struct Chunk {
    pub start: usize,
    pub end: usize,
    /// Immutable snapshot of the text originally occupying `[start, end)`.
    pub original: String,
    /// Text rendered immediately before `content`; empty by default.
    pub intro: String,
    /// Text rendered immediately after `content`; empty by default.
    pub outro: String,
    /// The text this chunk currently renders as its body.
    pub content: String,
    /// This chunk's content is a renamed identifier a source-map consumer
    /// must track by name.
    pub store_name: bool,
    /// `content` has diverged from `original`; set by external editors,
    /// never by this core's own operations.
    pub edited: bool,
    /// Arena index of the chunk immediately before this one, if any.
    pub previous: Option<usize>,
    /// Arena index of the chunk immediately after this one, if any.
    pub next: Option<usize>,
}

impl Chunk {
    /// What this chunk renders: `intro`, then `content`, then `outro`.
    pub open spec fn rendered(self) -> Seq<char> {
        self.intro@ + self.content@ + self.outro@
    }

    /// A chunk as construction leaves it: both text fields hold the given
    /// content, nothing is prepended or appended, no flag is set, and the
    /// chunk is not linked to any neighbour.
    pub open spec fn is_fresh(self, start: usize, end: usize, content: Seq<char>) -> bool {
        &&& self.start == start
        &&& self.end == end
        &&& self.original@ == content
        &&& self.content@ == content
        &&& self.intro@ == Seq::<char>::empty()
        &&& self.outro@ == Seq::<char>::empty()
        &&& self.store_name == false
        &&& self.edited == false
        &&& self.previous is None
        &&& self.next is None
    }

    /// This chunk's links, seen from slot `i` of an arena of `n` chunks:
    /// `next` points strictly forward and `previous` strictly backward.
    /// The splitter links chunks in ascending textual order, which is also
    /// ascending arena order, so a well-formed chain can never revisit a
    /// chunk and forward traversal terminates.
    pub open spec fn links_wf(self, i: int, n: int) -> bool {
        &&& (self.next matches Some(j) ==> i < j < n)
        &&& (self.previous matches Some(p) ==> p < i)
    }

    /// Creates an unlinked chunk for the half-open range `[start, end)`
    /// whose `original` and `content` are independent copies of `content`.
    ///
    /// Whether `start <= end` holds is the caller's responsibility; this
    /// core never reads the offsets.  Linking the chunk into a list is a
    /// separate, explicit step.
    pub fn new(start: usize, end: usize, content: String) -> (c: Chunk)
        ensures
            c.is_fresh(start, end, content@),
    {
        Chunk {
            start,
            end,
            original: content.clone(),
            intro: String::new(),
            outro: String::new(),
            content,
            store_name: false,
            edited: false,
            previous: None,
            next: None,
        }
    }

    /// Renders this chunk's current output: the concatenation, in fixed
    /// order, of `intro`, `content` and `outro`.  No side effects.
    pub fn to_string(&self) -> (r: String)
        ensures
            r@ == self.rendered(),
    {
        let mut r = self.intro.clone();
        r.append(self.content.as_str());
        r.append(self.outro.as_str());
        r
    }
}

/// The arena that owns every chunk of one buffer.
///
/// `previous`/`next` are indices into `chunks`, so neighbour lookup is a
/// bounds-checked array access and no chunk ever dangles: a chunk leaves
/// the arena only when the whole list is discarded.
pub struct ChunkList {
    pub chunks: Vec<Chunk>,
}

impl ChunkList {
    /// Every chunk's links respect arena order.
    pub open spec fn wf(self) -> bool {
        forall|i: int|
            0 <= i < self.chunks@.len() ==> (#[trigger] self.chunks@[i]).links_wf(
                i,
                self.chunks@.len() as int,
            )
    }

    /// The arena holds one fully linked list in slot order: every chunk
    /// names the next slot as its successor, and the last chunk has none.
    pub open spec fn linked_in_order(self) -> bool {
        &&& forall|i: int|
            0 <= i < self.chunks@.len() - 1 ==> ((#[trigger] self.chunks@[i]).next matches Some(j)
                && j == i + 1)
        &&& self.chunks@.len() > 0 ==> self.chunks@[self.chunks@.len() - 1].next is None
    }

    /// The indices visited by forward traversal from slot `i`: `i` itself,
    /// then every chunk reachable by following `next`, in order, until a
    /// chunk with no `next` is reached.  Out-of-order or out-of-range links
    /// (which a well-formed arena never holds) cut the walk short, so the
    /// walk is finite for every arena.
    pub open spec fn chain_from(self, i: usize) -> Seq<usize>
        decreases self.chunks@.len() - i,
    {
        if i < self.chunks@.len() {
            match self.chunks@[i as int].next {
                Some(j) => if i < j && j < self.chunks@.len() {
                    seq![i] + self.chain_from(j)
                } else {
                    seq![i]
                },
                None => seq![i],
            }
        } else {
            Seq::empty()
        }
    }

    /// The concatenation of the rendered outputs of the chunks at `idxs`,
    /// in that order.
    pub open spec fn concat_rendered(self, idxs: Seq<usize>) -> Seq<char>
        decreases idxs.len(),
    {
        if idxs.len() == 0 {
            Seq::empty()
        } else {
            self.chunks@[idxs[0] as int].rendered() + self.concat_rendered(idxs.drop_first())
        }
    }

    /// An empty arena, holding no chunks.
    pub fn new() -> (l: ChunkList)
        ensures
            l.chunks@ == Seq::<Chunk>::empty(),
            l.wf(),
    {
        ChunkList { chunks: Vec::new() }
    }

    /// Places an unlinked chunk in the arena and returns its index.
    pub fn push(&mut self, c: Chunk) -> (i: usize)
        requires
            old(self).wf(),
            c.previous is None,
            c.next is None,
        ensures
            final(self).chunks@ == old(self).chunks@.push(c),
            i == old(self).chunks@.len(),
            final(self).wf(),
    {
        let i = self.chunks.len();
        self.chunks.push(c);
        i
    }

    /// Links the chunk at `i` and the chunk at `j` as immediate neighbours,
    /// in that order: `i`'s `next` and `j`'s `previous` are set in one step,
    /// so the list never holds the pair half-linked.  Everything else about
    /// both chunks, and every other chunk, is left untouched.
    pub fn link(&mut self, i: usize, j: usize)
        requires
            old(self).wf(),
            i < j,
            j < old(self).chunks@.len(),
        ensures
            final(self).chunks@.len() == old(self).chunks@.len(),
            final(self).chunks@[i as int] == (Chunk {
                next: Some(j),
                ..old(self).chunks@[i as int]
            }),
            final(self).chunks@[j as int] == (Chunk {
                previous: Some(i),
                ..old(self).chunks@[j as int]
            }),
            forall|k: int|
                0 <= k < old(self).chunks@.len() && k != i && k != j
                    ==> final(self).chunks@[k] == old(self).chunks@[k],
            final(self).wf(),
    {
        self.chunks[i].next = Some(j);
        self.chunks[j].previous = Some(i);
    }

    /// Overwrites the body text of the chunk at `i` on behalf of the
    /// editing layer.  Only that chunk's `content` changes: its `original`
    /// snapshot, its links and flags, and every other chunk are left
    /// exactly as they were, and a well-formed list stays well formed.
    pub fn set_content(&mut self, i: usize, text: String)
        requires
            i < old(self).chunks@.len(),
        ensures
            final(self).chunks@.len() == old(self).chunks@.len(),
            final(self).chunks@[i as int] == (Chunk {
                content: text,
                ..old(self).chunks@[i as int]
            }),
            forall|k: int|
                0 <= k < old(self).chunks@.len() && k != i ==> final(self).chunks@[k] == old(
                    self,
                ).chunks@[k],
            old(self).wf() ==> final(self).wf(),
    {
        self.chunks[i].content = text;
    }

    /// The chunk immediately after the chunk at `i`, or `None` at the end
    /// of the list.  A single-step accessor: no allocation, no mutation.
    pub fn next(&self, i: usize) -> (r: Option<&Chunk>)
        requires
            self.wf(),
            i < self.chunks@.len(),
        ensures
            r is Some <==> self.chunks@[i as int].next is Some,
            r matches Some(c) ==> self.chunks@[i as int].next matches Some(j) && *c
                == self.chunks@[j as int],
    {
        match self.chunks[i].next {
            Some(j) => Some(&self.chunks[j]),
            None => None,
        }
    }

    /// The chunk immediately before the chunk at `i`, or `None` at the
    /// head of the list.  A single-step accessor: no allocation, no
    /// mutation.
    pub fn previous(&self, i: usize) -> (r: Option<&Chunk>)
        requires
            self.wf(),
            i < self.chunks@.len(),
        ensures
            r is Some <==> self.chunks@[i as int].previous is Some,
            r matches Some(c) ==> self.chunks@[i as int].previous matches Some(p) && *c
                == self.chunks@[p as int],
    {
        match self.chunks[i].previous {
            Some(p) => Some(&self.chunks[p]),
            None => None,
        }
    }

    /// Forward traversal: returns the arena indices of the starting chunk
    /// and of every chunk after it, in strict list order, each exactly
    /// once, ending with the chunk whose `next` is absent.  The list itself
    /// is only read.
    pub fn each_next(&self, start: usize) -> (r: Vec<usize>)
        requires
            self.wf(),
            start < self.chunks@.len(),
        ensures
            r@ == self.chain_from(start),
    {
        let mut r: Vec<usize> = Vec::new();
        let mut cur: usize = start;
        loop
            invariant
                self.wf(),
                cur < self.chunks@.len(),
                self.chain_from(start) == r@ + self.chain_from(cur),
            decreases self.chunks@.len() - cur,
        {
            r.push(cur);
            match self.chunks[cur].next {
                Some(j) => {
                    cur = j;
                },
                None => {
                    proof {
                        assert(self.chain_from(start) =~= r@);
                    }
                    return r;
                },
            }
        }
    }

    /// Assembles the list's output from slot `i` on: forward traversal
    /// folded over every visited chunk, concatenating each chunk's rendered
    /// form (`intro`, then `content`, then `outro`) in list order.
    pub fn assemble_from(&self, start: usize) -> (r: String)
        requires
            self.wf(),
            start < self.chunks@.len(),
        ensures
            r@ == self.concat_rendered(self.chain_from(start)),
    {
        let mut r = String::new();
        let mut cur: usize = start;
        loop
            invariant
                self.wf(),
                cur < self.chunks@.len(),
                self.concat_rendered(self.chain_from(start)) == r@ + self.concat_rendered(
                    self.chain_from(cur),
                ),
            decreases self.chunks@.len() - cur,
        {
            r.append(self.chunks[cur].intro.as_str());
            r.append(self.chunks[cur].content.as_str());
            r.append(self.chunks[cur].outro.as_str());
            match self.chunks[cur].next {
                Some(j) => {
                    proof {
                        let tail = self.chain_from(j);
                        assert((seq![cur] + tail).drop_first() =~= tail);
                        assert((seq![cur] + tail)[0] == cur);
                    }
                    cur = j;
                },
                None => {
                    proof {
                        let one = seq![cur];
                        assert(self.chain_from(cur) == one);
                        assert(one[0] == cur);
                        assert(one.drop_first() =~= Seq::<usize>::empty());
                        assert(self.concat_rendered(one) == self.chunks@[cur as int].rendered()
                            + self.concat_rendered(Seq::<usize>::empty()));
                        assert(r@ =~= self.concat_rendered(self.chain_from(start)));
                    }
                    return r;
                },
            }
        }
    }
}

/// In a well-formed arena, forward traversal really follows the links: the
/// visit starts with the given chunk, each visited chunk names the next
/// visited one as its successor, the visit ends at a chunk with no `next`,
/// and the visited indices are in range and strictly increasing, so no
/// chunk is visited twice.
pub proof fn lemma_chain_follows_links(l: ChunkList, i: usize)
    requires
        l.wf(),
        i < l.chunks@.len(),
    ensures
        l.chain_from(i).len() >= 1,
        l.chain_from(i)[0] == i,
        forall|m: int|
            0 <= m < l.chain_from(i).len() ==> #[trigger] l.chain_from(i)[m] < l.chunks@.len(),
        forall|m: int|
            0 <= m < l.chain_from(i).len() - 1 ==> l.chunks@[#[trigger] l.chain_from(i)[m] as int].next
                == Some(l.chain_from(i)[m + 1]),
        l.chunks@[l.chain_from(i).last() as int].next is None,
        forall|m: int|
            0 <= m < l.chain_from(i).len() - 1 ==> #[trigger] l.chain_from(i)[m] < l.chain_from(
                i,
            )[m + 1],
    decreases l.chunks@.len() - i,
{
    match l.chunks@[i as int].next {
        Some(j) => {
            lemma_chain_follows_links(l, j);
            assert(l.chain_from(i) == seq![i] + l.chain_from(j));
            assert forall|m: int| 0 <= m < l.chain_from(i).len() - 1 implies l.chunks@[#[trigger] l.chain_from(
                i,
            )[m] as int].next == Some(l.chain_from(i)[m + 1]) by {
                if m > 0 {
                    assert(l.chain_from(i)[m] == l.chain_from(j)[m - 1]);
                    assert(l.chain_from(i)[m + 1] == l.chain_from(j)[m]);
                }
            }
            assert(l.chain_from(i).last() == l.chain_from(j).last());
        },
        None => {},
    }
}

/// In a list of chunks linked in slot order, forward traversal from the
/// chunk at `k` visits exactly the chunks `k`, `k + 1`, ..., up to the last
/// chunk, in that order, each exactly once: the visited indices are
/// strictly increasing, so no chunk is seen twice.
pub proof fn lemma_traversal_visits_suffix(l: ChunkList, k: usize)
    requires
        l.linked_in_order(),
        k < l.chunks@.len(),
    ensures
        l.chain_from(k).len() == l.chunks@.len() - k,
        forall|m: int| 0 <= m < l.chain_from(k).len() ==> #[trigger] l.chain_from(k)[m] == k + m,
    decreases l.chunks@.len() - k,
{
    if k == l.chunks@.len() - 1 {
        assert(l.chain_from(k) == seq![k]);
    } else {
        let j = l.chunks@[k as int].next.unwrap();
        assert(j == k + 1);
        lemma_traversal_visits_suffix(l, j);
        assert(l.chain_from(k) == seq![k] + l.chain_from(j));
    }
}

/// Traversal from a chunk with no `next` — the last chunk of a list —
/// visits exactly that one chunk.
pub proof fn lemma_traversal_from_last(l: ChunkList, k: usize)
    requires
        k < l.chunks@.len(),
        l.chunks@[k as int].next is None,
    ensures
        l.chain_from(k) == seq![k],
{
}

/// Rendering reads the chunk and nothing else: any two renderings of the
/// same chunk state are the same text, so repeated calls of
/// [`Chunk::to_string`] with no intervening mutation all return one value.
pub proof fn lemma_rendering_deterministic(c: Chunk, r1: Seq<char>, r2: Seq<char>)
    requires
        r1 == c.rendered(),
        r2 == c.rendered(),
    ensures
        r1 == r2,
{
}

} // verus!
