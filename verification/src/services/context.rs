//! Context management for long novels: what is handed to the text
//! generator alongside each chapter prompt.

use vstd::prelude::*;

verus! {

/// Context manager for long novels.
pub struct ContextService;

impl ContextService {
    /// Creates a context service.
    pub fn new() -> ContextService {
        ContextService
    }

    /// The context for a chapter.  No semantic retrieval is kept for a
    /// chapter yet, so the context is empty.
    pub fn get_context(&self, _project_id: &str, _chapter_number: u32) -> (r: String)
        ensures
            r@ == Seq::<char>::empty(),
    {
        String::new()
    }

    /// Compresses prior chapters into one context block by joining them
    /// with blank lines.
    pub fn compress_context(&self, chapters: &Vec<String>) -> (r: String)
        ensures
            r@ == join_blank_lines(crate::models::validation::seq_views(chapters@)),
    {
        let mut out = String::new();
        let n = chapters.len();
        let mut i: usize = 0;
        while i < n
            invariant
                n == chapters@.len(),
                0 <= i <= n,
                out@ == join_blank_lines(
                    crate::models::validation::seq_views(chapters@).take(i as int),
                ),
            decreases n - i,
        {
            if i > 0 {
                out.append("\n\n");
            }
            out.append(chapters[i].as_str());
            proof {
                lemma_join_blank_lines_push(
                    crate::models::validation::seq_views(chapters@).take(i as int),
                    chapters@[i as int]@,
                );
                assert(crate::models::validation::seq_views(chapters@).take(i + 1)
                    =~= crate::models::validation::seq_views(chapters@).take(i as int).push(
                    chapters@[i as int]@,
                ));
                assert(out@ =~= join_blank_lines(
                    crate::models::validation::seq_views(chapters@).take(i + 1),
                ));
            }
            i += 1;
        }
        proof {
            assert(crate::models::validation::seq_views(chapters@).take(n as int)
                =~= crate::models::validation::seq_views(chapters@));
        }
        out
    }
}

impl Default for ContextService {
    /// The default context service.
    fn default() -> ContextService {
        ContextService
    }
}

/// The given texts joined with blank lines.
pub open spec fn join_blank_lines(xs: Seq<Seq<char>>) -> Seq<char>
    decreases xs.len(),
{
    if xs.len() == 0 {
        Seq::empty()
    } else if xs.len() == 1 {
        xs[0]
    } else {
        xs[0] + "\n\n"@ + join_blank_lines(xs.drop_first())
    }
}

proof fn lemma_join_blank_lines_push(xs: Seq<Seq<char>>, y: Seq<char>)
    ensures
        join_blank_lines(xs.push(y)) == if xs.len() == 0 {
            y
        } else {
            join_blank_lines(xs) + "\n\n"@ + y
        },
    decreases xs.len(),
{
    if xs.len() == 0 {
        assert(join_blank_lines(xs.push(y)) == xs.push(y)[0]);
    } else if xs.len() == 1 {
        assert(xs.push(y).drop_first() =~= seq![y]);
        assert(join_blank_lines(seq![y]) == y);
    } else {
        assert(xs.push(y).drop_first() =~= xs.drop_first().push(y));
        lemma_join_blank_lines_push(xs.drop_first(), y);
        assert(join_blank_lines(xs.push(y)) == xs[0] + "\n\n"@ + join_blank_lines(
            xs.drop_first().push(y),
        ));
        assert(join_blank_lines(xs) + "\n\n"@ + y == xs[0] + "\n\n"@ + (join_blank_lines(
            xs.drop_first(),
        ) + "\n\n"@ + y)) by {
            assert((xs[0] + "\n\n"@ + join_blank_lines(xs.drop_first())) + "\n\n"@ + y =~= xs[0]
                + "\n\n"@ + (join_blank_lines(xs.drop_first()) + "\n\n"@ + y));
        }
    }
}

} // verus!
