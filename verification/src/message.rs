//! Text content blocks: one text in several representations.

use vstd::prelude::*;

use crate::text::str_eq;

verus! {

/// The mimetype of plain text.
pub open spec fn plain_mimetype() -> Seq<char> {
    "text/plain"@
}

/// Text content in one representation.
#[derive(Debug)]
pub struct TextRepresentation {
    /// The mimetype of the `body`.
    pub mimetype: String,
    /// The text.
    pub body: String,
}

impl Clone for TextRepresentation {
    fn clone(&self) -> (copy: Self)
        ensures
            copy.content() == self.content(),
    {
        TextRepresentation { mimetype: self.mimetype.clone(), body: self.body.clone() }
    }
}

impl TextRepresentation {
    /// What the representation holds: its mimetype and its text.
    pub open spec fn content(&self) -> (Seq<char>, Seq<char>) {
        (self.mimetype@, self.body@)
    }

    /// Creates a new representation of `body` with the given mimetype.
    pub fn new(mimetype: String, body: String) -> (r: Self)
        ensures
            r.mimetype@ == mimetype@,
            r.body@ == body@,
    {
        TextRepresentation { mimetype, body }
    }

    /// Creates a new plain text representation of `body`.
    pub fn plain(body: String) -> (r: Self)
        ensures
            r.mimetype@ == plain_mimetype(),
            r.body@ == body@,
    {
        TextRepresentation { mimetype: String::from_str("text/plain"), body }
    }

    /// Whether this representation is plain text.
    pub fn is_plain(&self) -> (b: bool)
        ensures
            b == (self.mimetype@ == plain_mimetype()),
    {
        str_eq(self.mimetype.as_str(), "text/plain")
    }
}

/// The position of the last plain text representation among `representations`, or -1 if there
/// is none.
pub open spec fn last_plain(representations: Seq<TextRepresentation>) -> int
    decreases representations.len(),
{
    if representations.len() == 0 {
        -1
    } else if representations.last().mimetype@ == plain_mimetype() {
        representations.len() - 1
    } else {
        last_plain(representations.drop_last())
    }
}

/// Where `last_plain` points, there is plain text, and none after it.
pub proof fn lemma_last_plain(representations: Seq<TextRepresentation>)
    ensures
        -1 <= last_plain(representations) < representations.len(),
        last_plain(representations) >= 0 ==> representations[last_plain(
            representations,
        )].mimetype@ == plain_mimetype(),
        forall|i: int|
            last_plain(representations) < i < representations.len()
                ==> (#[trigger] representations[i]).mimetype@ != plain_mimetype(),
    decreases representations.len(),
{
    if representations.len() > 0 && representations.last().mimetype@ != plain_mimetype() {
        lemma_last_plain(representations.drop_last());
        let earlier = representations.drop_last();
        assert forall|i: int|
            last_plain(representations) < i < representations.len() implies (
        #[trigger] representations[i]).mimetype@ != plain_mimetype() by {
            if i < earlier.len() {
                assert(earlier[i] == representations[i]);
            }
        }
    }
}

/// A block for text content with optional markup.
///
/// It holds the same text in several representations, the most faithful first.
#[derive(Debug)]
pub struct TextContentBlock {
    representations: Vec<TextRepresentation>,
}

impl View for TextContentBlock {
    type V = Seq<TextRepresentation>;

    closed spec fn view(&self) -> Seq<TextRepresentation> {
        self.representations@
    }
}

/// What each of `representations` holds.
pub open spec fn contents_of(representations: Seq<TextRepresentation>) -> Seq<
    (Seq<char>, Seq<char>),
> {
    representations.map_values(|r: TextRepresentation| r.content())
}

/// The last plain text is found by what the representations hold.
pub proof fn lemma_last_plain_by_contents(a: Seq<TextRepresentation>, b: Seq<TextRepresentation>)
    requires
        contents_of(a) == contents_of(b),
    ensures
        last_plain(a) == last_plain(b),
        last_plain(a) >= 0 ==> a[last_plain(a)].body@ == b[last_plain(b)].body@,
    decreases a.len(),
{
    assert(a.len() == contents_of(a).len());
    assert(b.len() == contents_of(b).len());
    lemma_last_plain(a);
    lemma_last_plain(b);
    if a.len() > 0 {
        assert(contents_of(a)[a.len() - 1] == a.last().content());
        assert(contents_of(b)[b.len() - 1] == b.last().content());
        if a.last().mimetype@ != plain_mimetype() {
            assert(contents_of(a.drop_last()) =~= contents_of(a).drop_last());
            assert(contents_of(b.drop_last()) =~= contents_of(b).drop_last());
            lemma_last_plain_by_contents(a.drop_last(), b.drop_last());
        }
    }
}

impl Clone for TextContentBlock {
    fn clone(&self) -> (copy: Self)
        ensures
            copy.contents() == self.contents(),
            copy.plain_text() == self.plain_text(),
    {
        let mut representations: Vec<TextRepresentation> = Vec::new();
        let mut i: usize = 0;
        while i < self.representations.len()
            invariant
                0 <= i <= self.representations@.len(),
                contents_of(representations@) == contents_of(self.representations@.take(i as int)),
            decreases self.representations@.len() - i,
        {
            let ghost before = representations@;
            let copy = self.representations[i].clone();
            representations.push(copy);
            proof {
                let shorter = self.representations@.take(i as int);
                let longer = self.representations@.take(i + 1);
                assert(longer =~= shorter.push(self.representations@[i as int]));
                assert(contents_of(representations@) =~= contents_of(before).push(copy.content()));
                assert(contents_of(longer) =~= contents_of(shorter).push(
                    self.representations@[i as int].content(),
                ));
            }
            i = i + 1;
        }
        proof {
            assert(self.representations@.take(i as int) =~= self.representations@);
            lemma_last_plain_by_contents(representations@, self.representations@);
        }
        TextContentBlock { representations }
    }
}

impl TextContentBlock {
    /// What the representations of the block hold, in their order.
    pub open spec fn contents(&self) -> Seq<(Seq<char>, Seq<char>)> {
        contents_of(self@)
    }

    /// The plain text of the block: the body of its last plain text representation.
    pub open spec fn plain_text(&self) -> Option<Seq<char>> {
        if last_plain(self@) >= 0 {
            Some(self@[last_plain(self@)].body@)
        } else {
            None
        }
    }

    /// A block with the given representations.
    pub fn from_representations(representations: Vec<TextRepresentation>) -> (block: Self)
        ensures
            block@ == representations@,
    {
        TextContentBlock { representations }
    }

    /// A block with only a plain text representation.
    pub fn plain(body: String) -> (block: Self)
        ensures
            block@.len() == 1,
            block@[0].mimetype@ == plain_mimetype(),
            block@[0].body@ == body@,
            block.plain_text() == Some(body@),
    {
        let mut representations: Vec<TextRepresentation> = Vec::new();
        representations.push(TextRepresentation::plain(body));
        let block = TextContentBlock { representations };
        proof {
            assert(block@.last() == block@[0]);
        }
        block
    }

    /// Whether this block holds no representation.
    pub fn is_empty(&self) -> (b: bool)
        ensures
            b == (self@.len() == 0),
    {
        self.representations.len() == 0
    }

    /// The number of representations.
    pub fn len(&self) -> (n: usize)
        ensures
            n == self@.len(),
    {
        self.representations.len()
    }

    /// The representation at position `i`.
    pub fn get(&self, i: usize) -> (r: &TextRepresentation)
        requires
            i < self@.len(),
        ensures
            *r == self@[i as int],
    {
        &self.representations[i]
    }

    /// Get the plain text representation of this message.
    pub fn find_plain(&self) -> (r: Option<&str>)
        ensures
            match r {
                Some(body) => self.plain_text() == Some(body@),
                None => self.plain_text() is None,
            },
    {
        let mut i: usize = self.representations.len();
        proof {
            lemma_last_plain(self@);
        }
        while i > 0
            invariant
                0 <= i <= self@.len(),
                self@ == self.representations@,
                forall|k: int|
                    i <= k < self@.len() ==> (#[trigger] self@[k]).mimetype@ != plain_mimetype(),
            decreases i,
        {
            i = i - 1;
            if self.representations[i].is_plain() {
                proof {
                    lemma_last_plain(self@);
                    assert(last_plain(self@) == i);
                }
                return Some(self.representations[i].body.as_str());
            }
        }
        proof {
            lemma_last_plain(self@);
            assert(last_plain(self@) == -1);
        }
        None
    }
}

} // verus!
