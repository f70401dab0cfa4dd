//! Page windows over ordered lists.

use crate::error::ErrorKind;
use vstd::prelude::*;

verus! {

/// One page of an ordered list, with the coordinates it was cut at.
#[derive(Debug, Clone, PartialEq, Eq)]
pub struct PageData<T> {
    /// Number of pages that the whole list fills.
    pub page_total: u32,
    /// Zero-based index of this page.
    pub page_index: u32,
    /// Largest number of items on a page.
    pub page_size: u32,
    /// The items of this page, in source order.
    pub data: Vec<T>,
}

/// Number of pages that `len` items fill: `len / page_size`, rounded up.
pub open spec fn page_count(len: nat, page_size: nat) -> nat {
    if page_size == 0 {
        0
    } else {
        ((len + page_size - 1) / (page_size as int)) as nat
    }
}

/// Position of the first item of page `page_index`, capped at `len`.
pub open spec fn page_start(len: nat, page_index: nat, page_size: nat) -> nat {
    if page_index * page_size <= len {
        page_index * page_size
    } else {
        len
    }
}

/// The items of page `page_index`: those at positions from
/// `page_index * page_size` up to, not including, `(page_index + 1) * page_size`.
pub open spec fn page_items<T>(items: Seq<T>, page_index: nat, page_size: nat) -> Seq<T> {
    items.subrange(
        page_start(items.len(), page_index, page_size) as int,
        page_start(items.len(), page_index + 1, page_size) as int,
    )
}

/// Whether `page_index` names no page although pages exist.
pub open spec fn page_index_out_of_range(len: nat, page_index: nat, page_size: nat) -> bool {
    page_count(len, page_size) > 0 && page_index >= page_count(len, page_size)
}

/// Whether the page count of `len` items fits the 32 bits that a page
/// reports it in. It does for every list of up to `u32::MAX` items, and for
/// a page size of zero, which no list is cut by.
pub open spec fn pages_fit(len: nat, page_size: nat) -> bool {
    page_count(len, page_size) <= u32::MAX
}

/// Cuts page `page_index` out of `src`.
///
/// A page size of zero is rejected with `PageSizeErr`, whatever the list and
/// the index. A page index at or beyond the page count is rejected with
/// `PageIndexErr` unless the list is empty. Otherwise the page holds the
/// items of its window, in source order, and reports the page count of the
/// whole list.
pub fn into_pagedata<T>(src: Vec<T>, page_index: u32, page_size: u32) -> (r: Result<
    Option<PageData<T>>,
    ErrorKind,
>)
    requires
        pages_fit(src@.len(), page_size as nat),
    ensures
        match r {
            Ok(Some(p)) => {
                &&& page_size > 0
                &&& !page_index_out_of_range(src@.len(), page_index as nat, page_size as nat)
                &&& p.page_total == page_count(src@.len(), page_size as nat)
                &&& p.page_index == page_index
                &&& p.page_size == page_size
                &&& p.data@ == page_items(src@, page_index as nat, page_size as nat)
            },
            Ok(None) => false,
            Err(ErrorKind::PageSizeErr) => page_size == 0,
            Err(ErrorKind::PageIndexErr) => page_size > 0 && page_index_out_of_range(
                src@.len(),
                page_index as nat,
                page_size as nat,
            ),
            Err(_) => false,
        },
        page_size == 0 ==> r matches Err(ErrorKind::PageSizeErr),
        page_size > 0 && page_count(src@.len(), page_size as nat) > 0 && page_index >= page_count(
            src@.len(),
            page_size as nat,
        ) ==> r matches Err(ErrorKind::PageIndexErr),
        page_size > 0 && src@.len() == 0 ==> (r matches Ok(Some(p)) && p.page_total == 0
            && p.data@.len() == 0),
{
    if page_size == 0 {
        return Err(ErrorKind::PageSizeErr);
    }
    let len: u64 = src.len() as u64;
    let size: u64 = page_size as u64;
    let total: u128 = (len as u128 + (size as u128 - 1)) / (size as u128);
    proof {
        lemma_page_count_bounded(src@.len(), page_size as nat);
    }
    if page_index as u128 >= total && total > 0 {
        return Err(ErrorKind::PageIndexErr);
    }
    assert(page_index as u64 * size <= u32::MAX * u32::MAX) by (nonlinear_arith)
        requires
            page_index <= u32::MAX,
            size <= u32::MAX,
    ;
    let from: u64 = page_index as u64 * size;
    let start: u64 = if from <= len {
        from
    } else {
        len
    };
    let end: u64 = if from + size <= len {
        from + size
    } else {
        len
    };
    assert((page_index + 1) * page_size == from + size) by (nonlinear_arith)
        requires
            from == page_index * size,
            size == page_size,
    ;
    let mut head = src;
    let mut list = head.split_off(start as usize);
    list.truncate((end - start) as usize);
    assert(list@ == page_items(src@, page_index as nat, page_size as nat));
    Ok(Some(PageData { page_total: total as u32, page_index, page_size, data: list }))
}

/// The items that a lookup of a list gave: those of the list, and none
/// where the lookup found no list.
pub open spec fn listed_items<T>(listed: Result<Option<Vec<T>>, ErrorKind>) -> Seq<T> {
    match listed {
        Ok(Some(list)) => list@,
        _ => Seq::empty(),
    }
}

/// Cuts page `page_index` out of a list that was looked up.
///
/// A lookup that failed passes its error on, before the page size and the
/// page index are looked at. A lookup that found no list gives the page of
/// the empty list. The other errors are those of [`into_pagedata`].
pub fn into_pagedata_of_listed<T>(
    listed: Result<Option<Vec<T>>, ErrorKind>,
    page_index: u32,
    page_size: u32,
) -> (r: Result<Option<PageData<T>>, ErrorKind>)
    requires
        pages_fit(listed_items(listed).len(), page_size as nat),
    ensures
        match r {
            Ok(Some(p)) => {
                &&& listed is Ok
                &&& page_size > 0
                &&& !page_index_out_of_range(
                    listed_items(listed).len(),
                    page_index as nat,
                    page_size as nat,
                )
                &&& p.page_total == page_count(listed_items(listed).len(), page_size as nat)
                &&& p.page_index == page_index
                &&& p.page_size == page_size
                &&& p.data@ == page_items(listed_items(listed), page_index as nat, page_size as nat)
            },
            Ok(None) => false,
            Err(e) => match listed {
                Err(failure) => e == failure,
                Ok(_) => if page_size == 0 {
                    e is PageSizeErr
                } else {
                    e is PageIndexErr && page_index_out_of_range(
                        listed_items(listed).len(),
                        page_index as nat,
                        page_size as nat,
                    )
                },
            },
        },
{
    match listed {
        Err(failure) => Err(failure),
        Ok(None) => into_pagedata(Vec::new(), page_index, page_size),
        Ok(Some(list)) => into_pagedata(list, page_index, page_size),
    }
}

/// The entries of a scan that hold a value, in scan order.
pub open spec fn materialized<T>(scan: Seq<Option<T>>) -> Seq<T>
    decreases scan.len(),
{
    if scan.len() == 0 {
        Seq::empty()
    } else {
        match scan.last() {
            Some(v) => materialized(scan.drop_last()).push(v),
            None => materialized(scan.drop_last()),
        }
    }
}

/// Keeps the entries of a scan that hold a value, in scan order.
pub fn collect_materialized<T>(scan: Vec<Option<T>>) -> (out: Vec<T>)
    ensures
        out@ == materialized(scan@),
        out@.len() <= scan@.len(),
{
    let mut out: Vec<T> = Vec::new();
    for entry in it: scan
        invariant
            it.seq() == scan@,
            out@ == materialized(scan@.take(it.index() as int)),
            out@.len() <= it.index(),
    {
        proof {
            let k = it.index() as int;
            assert(scan@.take(k + 1).drop_last() == scan@.take(k));
            assert(scan@.take(k + 1).last() == scan@[k]);
        }
        match entry {
            Some(v) => {
                out.push(v);
            },
            None => {},
        }
    }
    assert(scan@.take(scan@.len() as int) == scan@);
    out
}

/// Cuts page `page_index` out of the entries of `scan` that hold a value.
///
/// The window and the page count go by the number of entries that hold a
/// value, not by the length of the scan: an empty entry takes no place on any
/// page. Errors are those of [`into_pagedata`] on the kept entries.
pub fn paginate_materialized<T>(scan: Vec<Option<T>>, page_index: u32, page_size: u32) -> (r:
    Result<Option<PageData<T>>, ErrorKind>)
    requires
        pages_fit(materialized(scan@).len(), page_size as nat),
    ensures
        match r {
            Ok(Some(p)) => {
                &&& page_size > 0
                &&& !page_index_out_of_range(
                    materialized(scan@).len(),
                    page_index as nat,
                    page_size as nat,
                )
                &&& p.page_total == page_count(materialized(scan@).len(), page_size as nat)
                &&& p.page_total <= page_count(scan@.len(), page_size as nat)
                &&& p.page_index == page_index
                &&& p.page_size == page_size
                &&& p.data@ == page_items(materialized(scan@), page_index as nat, page_size as nat)
            },
            Ok(None) => false,
            Err(ErrorKind::PageSizeErr) => page_size == 0,
            Err(ErrorKind::PageIndexErr) => page_size > 0 && page_index_out_of_range(
                materialized(scan@).len(),
                page_index as nat,
                page_size as nat,
            ),
            Err(_) => false,
        },
{
    let kept = collect_materialized(scan);
    proof {
        if page_size > 0 {
            lemma_page_count_monotonic(kept@.len(), scan@.len(), page_size as nat);
        }
    }
    into_pagedata(kept, page_index, page_size)
}

/// The pages `0..pages` of `items`, one after the other.
pub open spec fn concat_pages<T>(items: Seq<T>, page_size: nat, pages: nat) -> Seq<T>
    decreases pages,
{
    if pages == 0 {
        Seq::empty()
    } else {
        concat_pages(items, page_size, (pages - 1) as nat) + page_items(
            items,
            (pages - 1) as nat,
            page_size,
        )
    }
}

/// The first `pages` pages, one after the other, are the first
/// `pages * page_size` items, or all of them where there are fewer.
pub proof fn lemma_concat_pages_is_prefix<T>(items: Seq<T>, page_size: nat, pages: nat)
    ensures
        concat_pages(items, page_size, pages) == items.subrange(
            0,
            page_start(items.len(), pages, page_size) as int,
        ),
    decreases pages,
{
    if pages == 0 {
        assert(page_start(items.len(), 0, page_size) == 0) by (nonlinear_arith);
        assert(concat_pages(items, page_size, 0) =~= items.subrange(0, 0));
    } else {
        let before = (pages - 1) as nat;
        lemma_concat_pages_is_prefix(items, page_size, before);
        let a = page_start(items.len(), before, page_size);
        let b = page_start(items.len(), pages, page_size);
        assert(before * page_size <= pages * page_size) by (nonlinear_arith)
            requires
                before <= pages,
        ;
        assert(a <= b);
        assert(b == page_start(items.len(), before + 1, page_size));
        assert(items.subrange(0, a as int) + items.subrange(a as int, b as int) =~= items.subrange(
            0,
            b as int,
        ));
    }
}

/// Every page of a list, taken in order from the first to the last, gives the
/// list back: no item is lost, repeated or moved.
pub proof fn lemma_pages_reconstruct<T>(items: Seq<T>, page_size: nat)
    requires
        page_size > 0,
    ensures
        concat_pages(items, page_size, page_count(items.len(), page_size)) == items,
{
    let pages = page_count(items.len(), page_size);
    lemma_concat_pages_is_prefix(items, page_size, pages);
    lemma_page_count_bounded(items.len(), page_size);
    assert(page_start(items.len(), pages, page_size) == items.len());
    assert(items.subrange(0, items.len() as int) =~= items);
}

/// Fewer items never fill more pages.
pub proof fn lemma_page_count_monotonic(fewer: nat, more: nat, page_size: nat)
    requires
        fewer <= more,
        page_size > 0,
    ensures
        page_count(fewer, page_size) <= page_count(more, page_size),
{
    assert((fewer + page_size - 1) / (page_size as int) <= (more + page_size - 1) / (
    page_size as int)) by (nonlinear_arith)
        requires
            fewer <= more,
            page_size > 0,
    ;
}

/// A scan holds no more values than it has entries, so the pages of its
/// values are no more than the pages of the whole scan.
pub proof fn lemma_materialized_pages<T>(scan: Seq<Option<T>>, page_size: nat)
    requires
        page_size > 0,
    ensures
        materialized(scan).len() <= scan.len(),
        page_count(materialized(scan).len(), page_size) <= page_count(scan.len(), page_size),
    decreases scan.len(),
{
    if scan.len() > 0 {
        lemma_materialized_pages(scan.drop_last(), page_size);
    }
    lemma_page_count_monotonic(materialized(scan).len(), scan.len(), page_size);
}

/// A scan that found nothing holds no value.
pub proof fn lemma_materialized_of_gaps<T>(scan: Seq<Option<T>>)
    requires
        forall|i: int| 0 <= i < scan.len() ==> (#[trigger] scan[i]) is None,
    ensures
        materialized(scan).len() == 0,
    decreases scan.len(),
{
    if scan.len() > 0 {
        lemma_materialized_of_gaps(scan.drop_last());
    }
}

/// The plain values of the items of a list.
pub open spec fn views<T: View>(items: Seq<T>) -> Seq<T::V> {
    Seq::new(items.len(), |i: int| items[i]@)
}

/// The plain values of the entries of a scan.
pub open spec fn option_views<T: View>(scan: Seq<Option<T>>) -> Seq<Option<T::V>> {
    Seq::new(
        scan.len(),
        |i: int|
            match scan[i] {
                Some(v) => Some(v@),
                None => None,
            },
    )
}

/// Keeping the values of a scan and then taking their plain values is
/// taking the plain values of the scan and then keeping them.
pub proof fn lemma_materialized_views<T: View>(scan: Seq<Option<T>>)
    ensures
        views(materialized(scan)) == materialized(option_views(scan)),
    decreases scan.len(),
{
    if scan.len() == 0 {
        assert(views(materialized(scan)) =~= materialized(option_views(scan)));
    } else {
        lemma_materialized_views(scan.drop_last());
        assert(option_views(scan).drop_last() =~= option_views(scan.drop_last()));
        assert(views(materialized(scan)) =~= materialized(option_views(scan)));
    }
}

/// The plain values of a page are the page of the plain values.
pub proof fn lemma_page_items_views<T: View>(items: Seq<T>, page_index: nat, page_size: nat)
    ensures
        views(page_items(items, page_index, page_size)) == page_items(
            views(items),
            page_index,
            page_size,
        ),
{
    assert(page_start(items.len(), page_index, page_size) <= page_start(
        items.len(),
        page_index + 1,
        page_size,
    )) by (nonlinear_arith)
        requires
            page_start(items.len(), page_index, page_size) == (if page_index * page_size
                <= items.len() {
                page_index * page_size
            } else {
                items.len()
            }),
            page_start(items.len(), page_index + 1, page_size) == (if (page_index + 1) * page_size
                <= items.len() {
                (page_index + 1) * page_size
            } else {
                items.len()
            }),
    ;
    assert(views(page_items(items, page_index, page_size)) =~= page_items(
        views(items),
        page_index,
        page_size,
    ));
}

/// A list never fills more pages than it has items, and its pages cover it.
pub proof fn lemma_page_count_bounded(len: nat, page_size: nat)
    requires
        page_size > 0,
    ensures
        page_count(len, page_size) <= len,
        len > 0 ==> page_count(len, page_size) > 0,
        len > 0 ==> (page_count(len, page_size) - 1) * page_size < len,
        page_count(len, page_size) * page_size >= len,
{
    let q = (len + page_size - 1) / (page_size as int);
    assert(q <= len && (len > 0 ==> q > 0) && q * page_size >= len && (len > 0 ==> (q - 1)
        * page_size < len)) by (nonlinear_arith)
        requires
            page_size > 0,
            len >= 0,
            q == (len + page_size - 1) / (page_size as int),
    ;
}

} // verus!
