//! Walking through the slides of a presentation.

use vstd::prelude::*;
use crate::presentation::{slides_view, strings_view, Presentation, Slide, SlideView};

verus! {

/// The paths of the image slides, in slide order.
pub open spec fn image_paths_of(slides: Seq<SlideView>) -> Seq<Seq<char>>
    decreases slides.len(),
{
    if slides.len() == 0 {
        Seq::empty()
    } else {
        match slides.first() {
            SlideView::Image(path) => seq![path] + image_paths_of(slides.drop_first()),
            _ => image_paths_of(slides.drop_first()),
        }
    }
}

/// The slide shown after a step forward or backward from `current` among
/// `count` slides: the neighbour in that direction, or `current` itself at
/// either end.
pub open spec fn neighbour(count: int, current: int, forward: bool) -> int {
    if forward {
        if current < count - 1 {
            current + 1
        } else {
            current
        }
    } else if current > 0 {
        current - 1
    } else {
        current
    }
}

impl Presentation {
    /// The paths of the images that the presentation shows, in slide order.
    pub fn image_paths(&self) -> (paths: Vec<String>)
        ensures
            strings_view(paths@) == image_paths_of(self@.slides),
    {
        let ghost slides = slides_view(self.slides@);
        let mut paths: Vec<String> = Vec::new();
        let mut index: usize = 0;
        assert(slides.subrange(0, slides.len() as int) == slides);
        assert(strings_view(paths@) + image_paths_of(slides) == image_paths_of(slides));
        while index < self.slides.len()
            invariant
                index <= self.slides.len(),
                slides == slides_view(self.slides@),
                strings_view(paths@) + image_paths_of(
                    slides.subrange(index as int, slides.len() as int),
                ) == image_paths_of(slides),
            decreases self.slides.len() - index,
        {
            let ghost rest = slides.subrange(index as int, slides.len() as int);
            let ghost before = strings_view(paths@);
            assert(rest.first() == self.slides@[index as int]@);
            assert(rest.drop_first() == slides.subrange(index + 1, slides.len() as int));
            match &self.slides[index] {
                Slide::Image(path) => {
                    paths.push(path.clone());
                    assert(strings_view(paths@) == before.push(path@));
                    assert(before.push(path@) + image_paths_of(rest.drop_first()) == before + (
                    seq![path@] + image_paths_of(rest.drop_first())));
                },
                _ => {},
            }
            index += 1;
        }
        assert(image_paths_of(slides.subrange(index as int, slides.len() as int))
            == Seq::<Seq<char>>::empty());
        assert(strings_view(paths@) + Seq::<Seq<char>>::empty() == strings_view(paths@));
        paths
    }
}

/// Moves `current_slide` one slide forward or backward, staying put at
/// either end of the presentation, and tells whether it moved.
pub fn change_slides(
    presentation: &Presentation,
    current_slide: &mut usize,
    forward: bool,
) -> (moved: bool)
    requires
        presentation.well_formed(),
    ensures
        *final(current_slide) == neighbour(
            presentation.slides@.len() as int,
            *old(current_slide) as int,
            forward,
        ),
        moved == (*final(current_slide) != *old(current_slide)),
{
    if forward {
        if *current_slide < presentation.slides.len() - 1 {
            *current_slide += 1;
            return true;
        }
    } else if *current_slide > 0 {
        *current_slide -= 1;
        return true;
    }
    false
}

/// A step from a slide of the presentation leads to a slide of the
/// presentation.
pub proof fn lemma_neighbour_in_range(count: int, current: int, forward: bool)
    requires
        0 <= current < count,
    ensures
        0 <= neighbour(count, current, forward) < count,
{
}

} // verus!
