//! The index page of the calendar documents: where the documents are.

use crate::failure::ParseFailure;
use crate::html::{group_texts, optional_texts, select_attributes, selected_attributes, texts};
use crate::text::{chars_of, ends_with, has_suffix};
use vstd::prelude::*;

verus! {

/// The selector of the cells of the index page that hold the links.
pub const LINK_CELL: &'static str = "td.FileListCellText";

/// The selector of a link.
pub const LINK: &'static str = "a";

/// The attribute of a link that holds its target.
pub const LINK_TARGET: &'static str = "href";

/// The ending of a link to a calendar document.
pub open spec fn pdf_ending() -> Seq<char> {
    seq!['.', 'p', 'd', 'f']
}

/// The targets among `links` that end as a calendar document does, a link
/// without target counting as an empty one.
pub open spec fn pdf_targets(links: Seq<Option<Seq<char>>>) -> Seq<Seq<char>>
    decreases links.len(),
{
    if links.len() == 0 {
        Seq::empty()
    } else {
        let target = match links.last() {
            Some(t) => t,
            None => Seq::empty(),
        };
        if ends_with(target, pdf_ending()) {
            pdf_targets(links.drop_last()).push(target)
        } else {
            pdf_targets(links.drop_last())
        }
    }
}

/// The targets of the calendar documents among the links of `groups`.
pub open spec fn pdf_links_of(groups: Seq<Seq<Option<Seq<char>>>>) -> Seq<Seq<char>>
    decreases groups.len(),
{
    if groups.len() == 0 {
        Seq::empty()
    } else {
        pdf_links_of(groups.drop_last()) + pdf_targets(groups.last())
    }
}

/// The targets of the calendar documents among the links of `groups`.
pub fn links_in(groups: &Vec<Vec<Option<String>>>) -> (r: Vec<String>)
    ensures
        texts(r@) == pdf_links_of(group_texts(groups@)),
{
    let ending: Vec<char> = vec!['.', 'p', 'd', 'f'];
    assert(ending@ == pdf_ending());
    let mut r: Vec<String> = Vec::new();
    let mut g: usize = 0;
    let ghost all = group_texts(groups@);
    assert(all.take(0) == Seq::<Seq<Option<Seq<char>>>>::empty());
    assert(texts(r@) == Seq::<Seq<char>>::empty());
    while g < groups.len()
        invariant
            g <= groups.len(),
            all == group_texts(groups@),
            ending@ == pdf_ending(),
            texts(r@) == pdf_links_of(all.take(g as int)),
        decreases groups.len() - g,
    {
        let group = &groups[g];
        let ghost links = all[g as int];
        let ghost done = texts(r@);
        let mut k: usize = 0;
        assert(links.take(0) == Seq::<Option<Seq<char>>>::empty());
        assert(done + Seq::<Seq<char>>::empty() == done);
        while k < group.len()
            invariant
                k <= group.len(),
                links == optional_texts(group@),
                ending@ == pdf_ending(),
                texts(r@) == done + pdf_targets(links.take(k as int)),
            decreases group.len() - k,
        {
            assert(links.take(k + 1).drop_last() == links.take(k as int));
            assert(links.take(k + 1).last() == links[k as int]);
            let ghost so_far = texts(r@);
            match &group[k] {
                Some(target) => {
                    let t = chars_of(target.as_str());
                    if has_suffix(&t, &ending) {
                        r.push(target.clone());
                        assert(texts(r@) == so_far.push(target@));
                    }
                },
                None => {
                    let t: Vec<char> = Vec::new();
                    if has_suffix(&t, &ending) {
                        r.push(String::new());
                        assert(texts(r@) == so_far.push(Seq::<char>::empty()));
                    }
                },
            }
            k += 1;
        }
        assert(links.take(k as int) == links);
        assert(all.take(g + 1).drop_last() == all.take(g as int));
        g += 1;
    }
    assert(all.take(g as int) == all);
    r
}

/// The targets of the links to calendar documents on the index page
/// `page`. It fails where the page cannot be searched.
pub fn pdf_links(page: &str) -> (r: Result<Vec<String>, ParseFailure>)
    ensures
        match selected_attributes(page@, LINK_CELL@, LINK@, LINK_TARGET@) {
            Some(groups) => r matches Ok(links) && texts(links@) == pdf_links_of(groups),
            None => r is Err,
        },
{
    match select_attributes(page, LINK_CELL, LINK, LINK_TARGET) {
        Some(groups) => Ok(links_in(&groups)),
        None => Err(ParseFailure),
    }
}

} // verus!
