//! Remote-controls pages: the plugin groups its most important parameters into
//! numbered pages of up to eight. The host shows one page at a time.

use crate::text::text_of_c;
use vstd::prelude::*;

verus! {

/// Parameters on one page at most.
pub const CLAP_REMOTE_CONTROLS_COUNT: usize = 8;

/// One page as the plugin fills it in: the name ends at its first NUL byte, the
/// parameter ids at the first id that is 0.
pub struct RawPage {
    pub page_id: u32,
    pub name: Vec<u8>,
    pub param_ids: Vec<u32>,
}

/// What the plugin's extension answers: `count`, and `get` for every page. A
/// function the plugin lacks answers nothing; a page it failed to fill in is
/// missing.
pub struct RemoteControls {
    pub count: Option<u32>,
    pub pages: Option<Vec<Option<RawPage>>>,
}

/// One remote-controls page: a plugin-named group of up to 8 params.
pub struct PageInfo {
    pub page_id: u32,
    pub name: String,
    pub params: Vec<u32>,
}

/// Address of the extension to ask: under its name or else under its draft
/// name.
pub fn rc_ext(current: Option<u64>, draft: Option<u64>) -> (ext: Option<u64>)
    ensures
        ext == if current is Some {
            current
        } else {
            draft
        },
{
    match current {
        Some(_) => current,
        None => draft,
    }
}

/// Does the plugin implement remote controls? It is asked for the extension
/// under its name and under its draft name.
pub fn available(current: Option<u64>, draft: Option<u64>) -> (r: bool)
    ensures
        r == (current is Some || draft is Some),
{
    rc_ext(current, draft).is_some()
}

/// The ids in front of the first 0, at most as many as a page has.
pub open spec fn page_params(ids: Seq<u32>) -> Seq<u32> {
    page_params_from(ids, CLAP_REMOTE_CONTROLS_COUNT as nat)
}

/// The ids in front of the first 0, at most `limit` of them.
pub open spec fn page_params_from(ids: Seq<u32>, limit: nat) -> Seq<u32>
    decreases ids.len(),
{
    if ids.len() == 0 || limit == 0 || ids[0] == 0 {
        Seq::empty()
    } else {
        seq![ids[0]] + page_params_from(ids.skip(1), (limit - 1) as nat)
    }
}

/// What the page shows.
pub open spec fn shows(page: PageInfo, raw: RawPage) -> bool {
    &&& page.page_id == raw.page_id
    &&& page.name@ == crate::text::c_text(raw.name@)
    &&& crate::text::keeps_text(raw.name@, page.name@)
    &&& page.params@ == page_params(raw.param_ids@)
}

/// The plugin can be asked for its pages.
pub open spec fn listable(ext: Option<RemoteControls>) -> bool {
    ext is Some && ext->0.count is Some && ext->0.pages is Some
}

/// Every page that the plugin counts, it also filled in.
pub open spec fn complete(ext: RemoteControls) -> bool {
    &&& ext.pages->0@.len() >= ext.count->0
    &&& forall|i: int| 0 <= i < ext.count->0 ==> #[trigger] ext.pages->0@[i] is Some
}

fn params_of(ids: &Vec<u32>) -> (params: Vec<u32>)
    ensures
        params@ == page_params(ids@),
{
    let mut params: Vec<u32> = Vec::new();
    let mut i: usize = 0;
    assert(ids@.skip(0) =~= ids@);
    while i < ids.len() && i < CLAP_REMOTE_CONTROLS_COUNT && ids[i] != 0
        invariant
            i <= ids@.len(),
            i <= CLAP_REMOTE_CONTROLS_COUNT,
            page_params(ids@) == params@ + page_params_from(
                ids@.skip(i as int),
                (CLAP_REMOTE_CONTROLS_COUNT - i) as nat,
            ),
        ensures
            i <= ids@.len(),
            i == ids@.len() || i == CLAP_REMOTE_CONTROLS_COUNT || ids@[i as int] == 0,
            page_params(ids@) == params@ + page_params_from(
                ids@.skip(i as int),
                (CLAP_REMOTE_CONTROLS_COUNT - i) as nat,
            ),
        decreases ids@.len() - i,
    {
        let ghost before = params@;
        params.push(ids[i]);
        assert(ids@.skip(i as int).skip(1) =~= ids@.skip(i + 1));
        assert(before + (seq![ids@[i as int]] + page_params_from(
            ids@.skip(i + 1),
            (CLAP_REMOTE_CONTROLS_COUNT - i - 1) as nat,
        )) =~= params@ + page_params_from(
            ids@.skip(i + 1),
            (CLAP_REMOTE_CONTROLS_COUNT - i - 1) as nat,
        ));
        i = i + 1;
    }
    assert(params@ + Seq::<u32>::empty() =~= params@);
    params
}

/// All pages the plugin exposes, in its order. Empty when the extension is
/// missing, `count` or `get` is absent, or a `get` call fails.
pub fn pages(ext: &Option<RemoteControls>) -> (pages: Vec<PageInfo>)
    ensures
        !listable(*ext) || !complete(ext->0) ==> pages@.len() == 0,
        listable(*ext) && complete(ext->0) ==> {
            &&& pages@.len() == ext->0.count->0
            &&& forall|i: int|
                0 <= i < pages@.len() ==> shows(
                    #[trigger] pages@[i],
                    ext->0.pages->0@[i]->0,
                )
        },
{
    let rc = match ext {
        Some(rc) => rc,
        None => return Vec::new(),
    };
    let count: u32 = match rc.count {
        Some(n) => n,
        None => return Vec::new(),
    };
    let raw = match &rc.pages {
        Some(raw) => raw,
        None => return Vec::new(),
    };
    let mut pages: Vec<PageInfo> = Vec::new();
    let mut i: u32 = 0;
    while i < count
        invariant
            i <= count,
            *ext == Some(*rc),
            rc.count == Some(count),
            rc.pages == Some(*raw),
            i <= raw@.len(),
            pages@.len() == i,
            forall|k: int| 0 <= k < i ==> #[trigger] raw@[k] is Some,
            forall|k: int| 0 <= k < i ==> shows(#[trigger] pages@[k], raw@[k]->0),
        decreases count - i,
    {
        if i as usize >= raw.len() {
            return Vec::new();
        }
        match &raw[i as usize] {
            None => return Vec::new(),
            Some(page) => {
                pages.push(
                    PageInfo {
                        page_id: page.page_id,
                        name: text_of_c(page.name.as_slice()),
                        params: params_of(&page.param_ids),
                    },
                );
            },
        }
        i = i + 1;
    }
    pages
}

/// Law: a page never shows more than eight parameters, and never the id 0.
pub proof fn pages_are_small(ids: Seq<u32>)
    ensures
        page_params(ids).len() <= CLAP_REMOTE_CONTROLS_COUNT,
        !page_params(ids).contains(0u32),
        page_params(ids).is_prefix_of(ids),
{
    small_from(ids, CLAP_REMOTE_CONTROLS_COUNT as nat);
}

proof fn small_from(ids: Seq<u32>, limit: nat)
    ensures
        page_params_from(ids, limit).len() <= limit,
        !page_params_from(ids, limit).contains(0u32),
        page_params_from(ids, limit).is_prefix_of(ids),
    decreases ids.len(),
{
    if ids.len() > 0 && limit > 0 && ids[0] != 0 {
        let rest = page_params_from(ids.skip(1), (limit - 1) as nat);
        small_from(ids.skip(1), (limit - 1) as nat);
        let all = page_params_from(ids, limit);
        assert(rest =~= ids.skip(1).take(rest.len() as int));
        assert(all =~= ids.take(all.len() as int));
        assert forall|i: int| 0 <= i < all.len() implies all[i] != 0u32 by {
            if i > 0 {
                assert(all[i] == rest[i - 1]);
                assert(rest.contains(rest[i - 1]));
            }
        }
    }
}

/// Law: a page shows every id in front of the first 0 that it has room for: it
/// ends where eight are shown, where no more are named, or at a 0.
pub proof fn pages_show_all_they_can(ids: Seq<u32>)
    ensures
        ({
            let n = page_params(ids).len();
            &&& n == 8 || n == ids.len() || ids[n as int] == 0
            &&& n <= 8 && n <= ids.len()
            &&& page_params(ids) == ids.take(n as int)
            &&& forall|i: int| 0 <= i < n ==> #[trigger] ids[i] != 0
        }),
{
    pages_are_small(ids);
    full_from(ids, CLAP_REMOTE_CONTROLS_COUNT as nat);
    let page = page_params(ids);
    assert(page =~= ids.take(page.len() as int));
    assert forall|i: int| 0 <= i < page.len() implies #[trigger] ids[i] != 0 by {
        assert(page[i] == ids[i]);
        assert(page.contains(page[i]));
    }
}

proof fn full_from(ids: Seq<u32>, limit: nat)
    ensures
        ({
            let n = page_params_from(ids, limit).len();
            n == limit || n == ids.len() || (n < ids.len() && ids[n as int] == 0)
        }),
    decreases ids.len(),
{
    if ids.len() > 0 && limit > 0 && ids[0] != 0 {
        let rest = ids.skip(1);
        full_from(rest, (limit - 1) as nat);
        let n = page_params_from(rest, (limit - 1) as nat).len() as int;
        if n < rest.len() {
            assert(rest[n] == ids[n + 1]);
        }
    }
}

/// Law: a page shows the name and the id that the plugin gave it.
pub proof fn pages_are_shown_as_named(page: PageInfo, raw: RawPage)
    requires
        shows(page, raw),
    ensures
        page.page_id == raw.page_id,
        page.name@ == crate::text::c_text(raw.name@),
        page.params@ == page_params(raw.param_ids@),
{
}

/// Law: pages are listed exactly where the plugin has both functions, and a list
/// is complete exactly if the plugin filled in every page that it counts.
pub proof fn listings_are_complete(ext: RemoteControls)
    requires
        ext.count is Some,
        ext.pages is Some,
    ensures
        listable(Some(ext)),
        !listable(None),
        forall|other: RemoteControls|
            other.count is None || other.pages is None ==> !#[trigger] listable(Some(other)),
        complete(ext) ==> forall|i: int|
            0 <= i < ext.count->0 ==> i < ext.pages->0@.len() && #[trigger] ext.pages->0@[i] is Some,
        ext.pages->0@.len() >= ext.count->0 && (forall|i: int|
            0 <= i < ext.count->0 ==> #[trigger] ext.pages->0@[i] is Some) ==> complete(ext),
{
}

} // verus!
