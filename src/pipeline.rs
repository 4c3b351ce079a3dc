//! The order of a build: preprocessors rewrite the book, then renderers read it.
use vstd::prelude::*;

verus! {

/// One step of a build, naming a configured component by its position.
#[derive(Debug, Clone, Copy, PartialEq, Eq, Structural)]
pub enum Stage {
    Preprocess(usize),
    Render(usize),
}

/// The preprocessors among the first `n` that support the active renderer, in order.
pub open spec fn preprocess_stages(supports: Seq<bool>, n: int) -> Seq<Stage>
    decreases n,
{
    if n <= 0 {
        Seq::empty()
    } else if supports[n - 1] {
        preprocess_stages(supports, n - 1).push(Stage::Preprocess((n - 1) as usize))
    } else {
        preprocess_stages(supports, n - 1)
    }
}

/// The renderers among the first `n`, in order.
pub open spec fn render_stages(n: int) -> Seq<Stage>
    decreases n,
{
    if n <= 0 {
        Seq::empty()
    } else {
        render_stages(n - 1).push(Stage::Render((n - 1) as usize))
    }
}

/// The steps of a build: each preprocessor that supports the active renderer, in declared
/// order, then each renderer in declared order.
pub open spec fn plan(supports: Seq<bool>, renderers: int) -> Seq<Stage> {
    preprocess_stages(supports, supports.len() as int) + render_stages(renderers)
}

/// The steps of a build; `supports[i]` tells whether preprocessor `i` supports the active
/// renderer, and `renderers` is the number of renderers. A failing step ends the build.
pub fn build_plan(supports: &Vec<bool>, renderers: usize) -> (r: Vec<Stage>)
    ensures
        r@ == plan(supports@, renderers as int),
{
    let mut r: Vec<Stage> = Vec::new();
    let mut i: usize = 0;
    while i < supports.len()
        invariant
            i <= supports@.len(),
            r@ == preprocess_stages(supports@, i as int),
        decreases supports@.len() - i,
    {
        if supports[i] {
            r.push(Stage::Preprocess(i));
        }
        i = i + 1;
    }
    let ghost pre = r@;
    let mut j: usize = 0;
    while j < renderers
        invariant
            j <= renderers,
            r@ == pre + render_stages(j as int),
            pre == preprocess_stages(supports@, supports@.len() as int),
        decreases renderers - j,
    {
        r.push(Stage::Render(j));
        j = j + 1;
        assert(r@ =~= pre + render_stages(j as int));
    }
    r
}

} // verus!
