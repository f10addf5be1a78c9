//! A book as a tree of sections, and the walk that rewrites the content of
//! every chapter in it, depth first and in order.

use crate::markdown::{markdown_failure, markdown_outcome, rewrite_markdown, RewriteError};
use crate::scanner::{characters, rewrite_text, rewritten};
use vstd::prelude::*;

verus! {

/// One entry of a book.
pub enum Section {
    /// A chapter, with the sections nested in it.
    Chapter(Chapter),
    /// A separator between chapters.
    Separator,
    /// The title of a part of the book.
    PartTitle(String),
}

/// A chapter: its name, its markdown source and the sections nested in it.
pub struct Chapter {
    pub name: String,
    pub content: String,
    pub sub_items: Vec<Section>,
}

/// A book: its sections in order.
pub struct Document {
    pub sections: Vec<Section>,
}

/// A section as a mathematical value.
pub enum SectionModel {
    Chapter { name: Seq<char>, content: Seq<char>, sub_items: Seq<SectionModel> },
    Separator,
    PartTitle(Seq<char>),
}

impl Chapter {
    /// The chapter as a mathematical value.
    pub open spec fn model(self) -> SectionModel
        decreases self,
    {
        SectionModel::Chapter {
            name: self.name@,
            content: self.content@,
            sub_items: models(self.sub_items@),
        }
    }
}

impl Section {
    /// The section as a mathematical value.
    pub open spec fn model(self) -> SectionModel
        decreases self,
    {
        match self {
            Section::Chapter(chapter) => chapter.model(),
            Section::Separator => SectionModel::Separator,
            Section::PartTitle(title) => SectionModel::PartTitle(title@),
        }
    }
}

/// The sections as mathematical values.
pub open spec fn models(sections: Seq<Section>) -> Seq<SectionModel>
    decreases sections,
{
    Seq::new(
        sections.len(),
        |i: int|
            if 0 <= i < sections.len() {
                sections[i].model()
            } else {
                SectionModel::Separator
            },
    )
}

/// Where a walk has got to: the sections as it leaves them, and why it
/// stopped, if it did.
pub struct Walk {
    pub sections: Seq<SectionModel>,
    pub failure: Option<RewriteError>,
}

/// The walk of one section. A chapter whose content cannot be rewritten is
/// left as it is, and the walk stops there. Otherwise its content is replaced
/// and the walk goes on into its nested sections. A separator and a part
/// title are passed over.
pub open spec fn walked_section(section: SectionModel) -> (SectionModel, Option<RewriteError>)
    decreases section, 0nat,
{
    match section {
        SectionModel::Chapter { name, content, sub_items } => match markdown_outcome(content) {
            None => (section, markdown_failure(content)),
            Some(new_content) => {
                let inner = walked_prefix(sub_items, sub_items.len());
                (
                    SectionModel::Chapter { name, content: new_content, sub_items: inner.sections },
                    inner.failure,
                )
            },
        },
        _ => (section, None),
    }
}

/// The walk of the first `n` sections, in order: it stops at the first
/// section whose walk fails, and leaves every section behind it untouched.
pub open spec fn walked_prefix(sections: Seq<SectionModel>, n: nat) -> Walk
    decreases sections, n,
{
    if n == 0 || n > sections.len() {
        Walk { sections, failure: None }
    } else {
        let sooner = walked_prefix(sections, (n - 1) as nat);
        if sooner.failure is Some {
            sooner
        } else {
            let (section, failure) = walked_section(sections[n - 1]);
            Walk { sections: sooner.sections.update(n - 1, section), failure }
        }
    }
}

/// The walk of all the sections.
pub open spec fn walked(sections: Seq<SectionModel>) -> Walk {
    walked_prefix(sections, sections.len())
}

/// The preprocessor: it rewrites `==body==` to small-caps markup in every
/// chapter of a book.
pub struct BlushPreprocessor;

impl BlushPreprocessor {
    pub fn new() -> (out: Self) {
        BlushPreprocessor
    }

    /// The name by which a book's configuration knows the preprocessor.
    pub fn name(&self) -> (out: &'static str)
        ensures
            out@ == "mdbook-blush"@,
    {
        "mdbook-blush"
    }

    /// Whether books are preprocessed for this renderer: for `html` alone.
    pub fn supports_renderer(&self, renderer: &str) -> (out: bool)
        ensures
            out == (renderer@ == "html"@),
    {
        let chars = characters(renderer);
        proof {
            reveal_strlit("html");
            if chars@.len() == 4 && chars@[0] == 'h' && chars@[1] == 't' && chars@[2] == 'm'
                && chars@[3] == 'l' {
                assert(renderer@ =~= "html"@);
            }
        }
        chars.len() == 4 && chars[0] == 'h' && chars[1] == 't' && chars[2] == 'm' && chars[3]
            == 'l'
    }

    /// Rewrites one run of plain text.
    pub fn preprocess_text(&self, text: &str) -> (out: String)
        ensures
            out@ == rewritten(text@),
    {
        rewrite_text(text)
    }

    /// Walks one section.
    pub fn preprocess_bookitem(&self, item: &mut Section) -> (out: Result<(), RewriteError>)
        ensures
            final(item).model() == walked_section(old(item).model()).0,
            match out {
                Ok(_) => walked_section(old(item).model()).1 is None,
                Err(e) => walked_section(old(item).model()).1 == Some(e),
            },
        decreases *old(item), 1nat,
    {
        match item {
            Section::Chapter(chapter) => self.preprocess_chapter(chapter),
            Section::Separator => Ok(()),
            Section::PartTitle(_) => Ok(()),
        }
    }

    /// Rewrites the content of a chapter, then walks the sections nested in
    /// it.
    pub fn preprocess_chapter(&self, chapter: &mut Chapter) -> (out: Result<(), RewriteError>)
        ensures
            final(chapter).model() == walked_section(old(chapter).model()).0,
            match out {
                Ok(_) => walked_section(old(chapter).model()).1 is None,
                Err(e) => walked_section(old(chapter).model()).1 == Some(e),
            },
        decreases *old(chapter), 0nat,
    {
        match rewrite_markdown(chapter.content.as_str()) {
            Err(e) => Err(e),
            Ok(new_content) => {
                chapter.content = new_content;
                self.preprocess_sections(&mut chapter.sub_items)
            },
        }
    }

    /// Walks the sections in order, and stops at the first that fails.
    pub fn preprocess_sections(&self, sections: &mut Vec<Section>) -> (out: Result<
        (),
        RewriteError,
    >)
        ensures
            models(final(sections)@) == walked(models(old(sections)@)).sections,
            match out {
                Ok(_) => walked(models(old(sections)@)).failure is None,
                Err(e) => walked(models(old(sections)@)).failure == Some(e),
            },
        decreases *old(sections), 2nat,
    {
        let ghost before = models(sections@);
        let n: usize = sections.len();
        let mut i: usize = 0;
        while i < n
            invariant
                n == before.len(),
                before == models(old(sections)@),
                old(sections)@.len() == n,
                sections@.len() == n,
                i <= n,
                models(sections@) == walked_prefix(before, i as nat).sections,
                walked_prefix(before, i as nat).failure is None,
                forall|k: int| i <= k < n ==> sections@[k] == old(sections)@[k],
            decreases n - i,
        {
            let ghost sooner = sections@;
            proof {
                vstd::std_specs::vec::axiom_vec_index_decreases(*old(sections), i as int);
                assert(sections@[i as int] == old(sections)@[i as int]);
            }
            let r = self.preprocess_bookitem(&mut sections[i]);
            proof {
                assert(sections@ == sooner.update(i as int, sections@[i as int]));
                assert(before[i as int] == sooner[i as int].model());
                assert(models(sections@) =~= models(sooner).update(
                    i as int,
                    sections@[i as int].model(),
                ));
                assert(models(sections@) =~= walked_prefix(before, (i + 1) as nat).sections);
            }
            if let Err(e) = r {
                proof {
                    lemma_failure_stays(before, (i + 1) as nat, n as nat);
                }
                return Err(e);
            }
            i += 1;
        }
        Ok(())
    }

    /// Rewrites every chapter of the book, at every depth. The first chapter
    /// that cannot be rewritten ends the walk with its error.
    pub fn run(&self, book: Document) -> (out: Result<Document, RewriteError>)
        ensures
            match out {
                Ok(done) => walked(models(book.sections@)).failure is None && models(
                    done.sections@,
                ) == walked(models(book.sections@)).sections,
                Err(e) => walked(models(book.sections@)).failure == Some(e),
            },
    {
        let mut book = book;
        match self.preprocess_sections(&mut book.sections) {
            Ok(_) => Ok(book),
            Err(e) => Err(e),
        }
    }
}

/// Once a walk has failed it goes no further: what it leaves and why it
/// failed stay the same however many more sections it is asked to take.
pub proof fn lemma_failure_stays(sections: Seq<SectionModel>, n: nat, m: nat)
    requires
        n <= m <= sections.len(),
        walked_prefix(sections, n).failure is Some,
    ensures
        walked_prefix(sections, m) == walked_prefix(sections, n),
    decreases m,
{
    if n < m {
        lemma_failure_stays(sections, n, (m - 1) as nat);
    }
}

/// The shape of a walk of the first `n` sections: it keeps their number, and
/// leaves every section from the `n`-th on untouched. Where it did not fail,
/// every section before the `n`-th was walked, and none of them failed; and
/// where none of them fails, it does not fail.
pub proof fn lemma_walked_prefix(sections: Seq<SectionModel>, n: nat)
    requires
        n <= sections.len(),
    ensures
        walked_prefix(sections, n).sections.len() == sections.len(),
        forall|k: int|
            n <= k < sections.len() ==> walked_prefix(sections, n).sections[k] == sections[k],
        walked_prefix(sections, n).failure is None ==> forall|k: int|
            0 <= k < n ==> walked_prefix(sections, n).sections[k] == (#[trigger] walked_section(
                sections[k],
            )).0 && walked_section(sections[k]).1 is None,
        (forall|k: int| 0 <= k < n ==> (#[trigger] walked_section(sections[k])).1 is None)
            ==> walked_prefix(sections, n).failure is None,
    decreases n,
{
    if n > 0 {
        lemma_walked_prefix(sections, (n - 1) as nat);
        if forall|k: int| 0 <= k < n ==> (#[trigger] walked_section(sections[k])).1 is None {
            assert(walked_section(sections[n - 1]).1 is None);
            assert(walked_prefix(sections, (n - 1) as nat).failure is None);
        }
    }
}

/// Traversal is complete: after a walk that did not fail, every section of
/// the book stands where it stood and is the walk of what stood there.
pub proof fn lemma_walk_complete(sections: Seq<SectionModel>, k: int)
    requires
        walked(sections).failure is None,
        0 <= k < sections.len(),
    ensures
        walked(sections).sections.len() == sections.len(),
        walked(sections).sections[k] == walked_section(sections[k]).0,
        walked_section(sections[k]).1 is None,
{
    lemma_walked_prefix(sections, sections.len());
}

/// A chapter whose walk did not fail keeps its name, has its content
/// rewritten, and has every section nested in it walked without a failure.
pub proof fn lemma_chapter_walked(
    name: Seq<char>,
    content: Seq<char>,
    sub_items: Seq<SectionModel>,
)
    requires
        walked_section(SectionModel::Chapter { name, content, sub_items }).1 is None,
    ensures
        markdown_outcome(content) is Some,
        walked_section(SectionModel::Chapter { name, content, sub_items }).0
            == (SectionModel::Chapter {
            name,
            content: markdown_outcome(content)->0,
            sub_items: walked(sub_items).sections,
        }),
        walked(sub_items).failure is None,
{
}

/// A separator and a part title are passed over: the walk leaves them as
/// they are and does not fail on them.
pub proof fn lemma_passed_over(section: SectionModel)
    requires
        !(section is Chapter),
    ensures
        walked_section(section) == (section, None::<RewriteError>),
{
}

/// A failure is fatal: where the walk of the section at `at` fails and no
/// section before it does, the walk of the book fails with that error, the
/// sections before it are walked, and every section behind it is left
/// untouched.
pub proof fn lemma_walk_stops(sections: Seq<SectionModel>, at: int)
    requires
        0 <= at < sections.len(),
        forall|k: int| 0 <= k < at ==> (#[trigger] walked_section(sections[k])).1 is None,
        walked_section(sections[at]).1 is Some,
    ensures
        walked(sections).failure == walked_section(sections[at]).1,
        walked(sections).sections.len() == sections.len(),
        forall|k: int|
            0 <= k <= at ==> walked(sections).sections[k] == (#[trigger] walked_section(
                sections[k],
            )).0,
        forall|k: int| at < k < sections.len() ==> walked(sections).sections[k] == sections[k],
{
    lemma_walked_prefix(sections, at as nat);
    lemma_walked_prefix(sections, (at + 1) as nat);
    lemma_failure_stays(sections, (at + 1) as nat, sections.len());
}

/// A chapter whose content cannot be rewritten is left as it is, with the
/// sections nested in it, and its walk fails.
pub proof fn lemma_chapter_fails(name: Seq<char>, content: Seq<char>, sub_items: Seq<SectionModel>)
    requires
        markdown_outcome(content) is None,
    ensures
        walked_section(SectionModel::Chapter { name, content, sub_items }) == (
            SectionModel::Chapter { name, content, sub_items },
            markdown_failure(content),
        ),
        markdown_failure(content) is Some,
{
}

} // verus!
