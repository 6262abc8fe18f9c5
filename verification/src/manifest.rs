//! The concat manifest: an ordered accumulation of trimmed-segment paths,
//! serialized once into the `file '<path>'` records the transcoder's concat
//! demuxer reads. The manifest is the sole ordering contract between the
//! trim stage and the mux stage.

use vstd::prelude::*;
use vstd::string::*;

verus! {

/// One manifest record: `file '<entry>'` followed by a newline.
pub open spec fn line_spec(entry: Seq<char>) -> Seq<char> {
    "file '"@ + entry + "'\n"@
}

/// The manifest text for the given entries, one record per entry, in order.
pub open spec fn render_spec(entries: Seq<Seq<char>>) -> Seq<char>
    decreases entries.len(),
{
    if entries.len() == 0 {
        Seq::empty()
    } else {
        render_spec(entries.drop_last()) + line_spec(entries.last())
    }
}

/// How many newline characters a text holds.
pub open spec fn count_newlines(s: Seq<char>) -> int
    decreases s.len(),
{
    if s.len() == 0 {
        0int
    } else {
        count_newlines(s.drop_last()) + if s.last() == '\n' {
            1int
        } else {
            0int
        }
    }
}

/// A text free of newlines has newline count zero, and conversely.
pub proof fn lemma_count_newlines_zero(s: Seq<char>)
    ensures
        count_newlines(s) >= 0,
        (count_newlines(s) == 0) <==> (forall|i: int| 0 <= i < s.len() ==> s[i] != '\n'),
    decreases s.len(),
{
    if s.len() > 0 {
        lemma_count_newlines_zero(s.drop_last());
        if count_newlines(s) == 0 {
            assert forall|i: int| 0 <= i < s.len() implies s[i] != '\n' by {
                if i < s.len() - 1 {
                    assert(s.drop_last()[i] == s[i]);
                }
            }
        }
        if forall|i: int| 0 <= i < s.len() ==> s[i] != '\n' {
            assert forall|i: int| 0 <= i < s.drop_last().len() implies s.drop_last()[i] != '\n' by {
                assert(s.drop_last()[i] == s[i]);
            }
        }
    }
}

/// Newline counting distributes over concatenation.
pub proof fn lemma_count_newlines_concat(a: Seq<char>, b: Seq<char>)
    ensures
        count_newlines(a + b) == count_newlines(a) + count_newlines(b),
    decreases b.len(),
{
    if b.len() == 0 {
        assert(a + b =~= a);
    } else {
        lemma_count_newlines_concat(a, b.drop_last());
        assert((a + b).drop_last() =~= a + b.drop_last());
        assert((a + b).last() == b.last());
    }
}

/// One record holds exactly one newline when its entry holds none.
pub proof fn lemma_line_one_newline(entry: Seq<char>)
    requires
        forall|i: int| 0 <= i < entry.len() ==> entry[i] != '\n',
    ensures
        count_newlines(line_spec(entry)) == 1,
{
    let head = "file '"@;
    let tail = "'\n"@;
    reveal_strlit("file '");
    reveal_strlit("'\n");
    assert forall|i: int| 0 <= i < head.len() implies head[i] != '\n' by {
        if i == 0 {
        } else if i == 1 {
        } else if i == 2 {
        } else if i == 3 {
        } else if i == 4 {
        } else {
            assert(i == 5);
        }
    }
    lemma_count_newlines_zero(head);
    lemma_count_newlines_zero(entry);
    assert(count_newlines(tail) == count_newlines(tail.drop_last()) + 1);
    assert(tail.drop_last().len() == 1);
    assert(tail.drop_last().last() == '\'');
    assert(count_newlines(tail.drop_last()) == count_newlines(tail.drop_last().drop_last()));
    assert(count_newlines(tail) == 1);
    lemma_count_newlines_concat(head, entry);
    lemma_count_newlines_concat(head + entry, tail);
    assert(head + entry + tail == line_spec(entry));
}

/// The manifest's line count equals its entry count: rendering entries free
/// of newlines yields exactly one newline-terminated record per entry.
pub proof fn lemma_render_line_count(entries: Seq<Seq<char>>)
    requires
        forall|k: int, i: int|
            0 <= k < entries.len() && 0 <= i < entries[k].len() ==> entries[k][i] != '\n',
    ensures
        count_newlines(render_spec(entries)) == entries.len(),
    decreases entries.len(),
{
    if entries.len() > 0 {
        assert forall|k: int, i: int|
            0 <= k < entries.drop_last().len() && 0 <= i
                < entries.drop_last()[k].len() implies entries.drop_last()[k][i] != '\n' by {
            assert(entries.drop_last()[k] == entries[k]);
        }
        lemma_render_line_count(entries.drop_last());
        lemma_line_one_newline(entries.last());
        lemma_count_newlines_concat(render_spec(entries.drop_last()), line_spec(entries.last()));
    }
}

/// Rendering one more entry appends exactly that entry's record: line order
/// equals entry order.
pub proof fn lemma_render_step(entries: Seq<Seq<char>>, k: int)
    requires
        0 <= k < entries.len(),
    ensures
        render_spec(entries.take(k + 1)) == render_spec(entries.take(k)) + line_spec(entries[k]),
{
    assert(entries.take(k + 1).drop_last() =~= entries.take(k));
    assert(entries.take(k + 1).last() == entries[k]);
}

/// The ordered accumulation of trimmed-segment paths.
pub struct ConcatManifest {
    entries: Vec<String>,
}

impl View for ConcatManifest {
    type V = Seq<Seq<char>>;

    closed spec fn view(&self) -> Seq<Seq<char>> {
        self.entries.deep_view()
    }
}

impl ConcatManifest {
    /// An empty manifest.
    pub fn new() -> (m: ConcatManifest)
        ensures
            m@ =~= Seq::<Seq<char>>::empty(),
    {
        ConcatManifest { entries: Vec::new() }
    }

    pub fn len(&self) -> (n: usize)
        ensures
            n == self@.len(),
    {
        self.entries.len()
    }

    /// Appends one segment path; order of accumulation is kept.
    pub fn push(&mut self, entry: String)
        ensures
            final(self)@ =~= old(self)@.push(entry@),
    {
        self.entries.push(entry);
        proof {
            assert(self.entries@.drop_last() =~= old(self).entries@);
        }
    }

    /// Serializes the accumulated entries, in order, one record per line.
    pub fn render(&self) -> (r: String)
        ensures
            r@ == render_spec(self@),
    {
        let mut r = String::new();
        let mut i: usize = 0;
        while i < self.entries.len()
            invariant
                i <= self.entries@.len(),
                self@.len() == self.entries@.len(),
                r@ == render_spec(self@.take(i as int)),
            decreases self.entries@.len() - i,
        {
            proof {
                assert(self@[i as int] == self.entries@[i as int]@);
            }
            r.append("file '");
            r.append(self.entries[i].as_str());
            r.append("'\n");
            proof {
                lemma_render_step(self@, i as int);
            }
            i = i + 1;
        }
        proof {
            assert(self@.take(self@.len() as int) =~= self@);
        }
        r
    }
}

} // verus!
