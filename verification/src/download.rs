use vstd::prelude::*;

use std::collections::HashMap;

use crate::novel::{Chapter, Content, Novel, Volume};

verus! {

broadcast use vstd::std_specs::hash::group_hash_axioms;

/// What the source tells of a chapter.
pub struct ChapterInfo {
    pub id: u32,
    pub title: String,
    /// The chapter can be downloaded with the account in use.
    pub can_download: bool,
    /// The chapter is a real chapter of the novel.
    pub is_valid: bool,
    /// The chapter must be bought before it can be read.
    pub payment_required: bool,
    /// Its price, where it has one.
    pub price: Option<u16>,
}

/// What the source tells of a volume: its title and its chapters.
pub struct VolumeInfo {
    pub title: String,
    pub chapter_infos: Vec<ChapterInfo>,
}

/// The number of downloadable chapters among the first `n` of `chapters`.
pub open spec fn downloadable_in(chapters: Seq<ChapterInfo>, n: int) -> nat
    decreases n,
{
    if n <= 0 {
        0
    } else {
        downloadable_in(chapters, n - 1) + if chapters[n - 1].can_download {
            1nat
        } else {
            0nat
        }
    }
}

/// The number of downloadable chapters in the first `n` of `volumes`.
pub open spec fn downloadable_before(volumes: Seq<VolumeInfo>, n: int) -> nat
    decreases n,
{
    if n <= 0 {
        0
    } else {
        downloadable_before(volumes, n - 1) + downloadable_in(
            volumes[n - 1].chapter_infos@,
            volumes[n - 1].chapter_infos@.len() as int,
        )
    }
}

pub open spec fn downloadable_total(volumes: Seq<VolumeInfo>) -> nat {
    downloadable_before(volumes, volumes.len() as int)
}

proof fn downloadable_in_bounded(chapters: Seq<ChapterInfo>, n: int)
    requires
        0 <= n <= chapters.len(),
    ensures
        downloadable_in(chapters, n) <= n,
    decreases n,
{
    if n > 0 {
        downloadable_in_bounded(chapters, n - 1);
    }
}

proof fn downloadable_before_grows(volumes: Seq<VolumeInfo>, a: int, b: int)
    requires
        0 <= a <= b,
    ensures
        downloadable_before(volumes, a) <= downloadable_before(volumes, b),
    decreases b,
{
    if a < b {
        downloadable_before_grows(volumes, a, b - 1);
    }
}

/// The number of chapters of `volume_infos` that can be downloaded.
pub fn chapter_count(volume_infos: &Vec<VolumeInfo>) -> (r: u64)
    requires
        downloadable_total(volume_infos@) <= u64::MAX,
    ensures
        r == downloadable_total(volume_infos@),
{
    let mut count: u64 = 0;
    let mut v: usize = 0;
    while v < volume_infos.len()
        invariant
            v <= volume_infos@.len(),
            downloadable_total(volume_infos@) <= u64::MAX,
            count == downloadable_before(volume_infos@, v as int),
        decreases volume_infos@.len() - v,
    {
        proof {
            downloadable_before_grows(volume_infos@, v + 1, volume_infos@.len() as int);
        }
        let chapters = &volume_infos[v].chapter_infos;
        let ghost base = count;
        let mut j: usize = 0;
        while j < chapters.len()
            invariant
                j <= chapters@.len(),
                chapters == volume_infos@[v as int].chapter_infos,
                base + downloadable_in(chapters@, chapters@.len() as int) <= u64::MAX,
                count == base + downloadable_in(chapters@, j as int),
            decreases chapters@.len() - j,
        {
            proof {
                downloadable_in_grows(chapters@, j + 1, chapters@.len() as int);
            }
            if chapters[j].can_download {
                count += 1;
            }
            j += 1;
        }
        v += 1;
    }
    count
}

proof fn downloadable_in_grows(chapters: Seq<ChapterInfo>, a: int, b: int)
    requires
        0 <= a <= b,
    ensures
        downloadable_in(chapters, a) <= downloadable_in(chapters, b),
    decreases b,
{
    if a < b {
        downloadable_in_grows(chapters, a, b - 1);
    }
}

/// Some chapter of `volumes` cannot be downloaded.
pub open spec fn spec_exists_undownloadable(volumes: Seq<VolumeInfo>) -> bool {
    exists|v: int, j: int|
        0 <= v < volumes.len() && 0 <= j < volumes[v].chapter_infos@.len()
            && !(#[trigger] volumes[v].chapter_infos@[j]).can_download
}

/// Whether some chapter of `volume_infos` cannot be downloaded.
pub fn exists_undownloadable(volume_infos: &Vec<VolumeInfo>) -> (r: bool)
    ensures
        r == spec_exists_undownloadable(volume_infos@),
{
    let mut v: usize = 0;
    while v < volume_infos.len()
        invariant
            v <= volume_infos@.len(),
            forall|x: int, j: int|
                0 <= x < v && 0 <= j < volume_infos@[x].chapter_infos@.len()
                    ==> (#[trigger] volume_infos@[x].chapter_infos@[j]).can_download,
        decreases volume_infos@.len() - v,
    {
        let chapters = &volume_infos[v].chapter_infos;
        let mut j: usize = 0;
        while j < chapters.len()
            invariant
                j <= chapters@.len(),
                v < volume_infos@.len(),
                chapters == volume_infos@[v as int].chapter_infos,
                forall|k: int| 0 <= k < j ==> (#[trigger] chapters@[k]).can_download,
            decreases chapters@.len() - j,
        {
            if !chapters[j].can_download {
                assert(!volume_infos@[v as int].chapter_infos@[j as int].can_download);
                return true;
            }
            j += 1;
        }
        v += 1;
    }
    false
}

/// A chapter to download: its id and title.
pub struct ChapterRequest {
    pub id: u32,
    pub title: String,
}

/// The downloadable chapters among the first `n` of `chapters`, in order.
pub open spec fn requests_in(chapters: Seq<ChapterInfo>, n: int) -> Seq<(u32, Seq<char>)>
    decreases n,
{
    if n <= 0 {
        Seq::empty()
    } else if chapters[n - 1].can_download {
        requests_in(chapters, n - 1).push((chapters[n - 1].id, chapters[n - 1].title@))
    } else {
        requests_in(chapters, n - 1)
    }
}

/// The downloadable chapters of the first `n` of `volumes`, in order.
pub open spec fn requests_before(volumes: Seq<VolumeInfo>, n: int) -> Seq<(u32, Seq<char>)>
    decreases n,
{
    if n <= 0 {
        Seq::empty()
    } else {
        requests_before(volumes, n - 1) + requests_in(
            volumes[n - 1].chapter_infos@,
            volumes[n - 1].chapter_infos@.len() as int,
        )
    }
}

pub open spec fn request_views(requests: Seq<ChapterRequest>) -> Seq<(u32, Seq<char>)> {
    requests.map_values(|r: ChapterRequest| (r.id, r.title@))
}

/// The chapters of `volume_infos` to download, in the order of the novel.
pub fn chapter_requests(volume_infos: &Vec<VolumeInfo>) -> (r: Vec<ChapterRequest>)
    ensures
        request_views(r@) == requests_before(volume_infos@, volume_infos@.len() as int),
{
    let mut r: Vec<ChapterRequest> = Vec::new();
    let mut v: usize = 0;
    while v < volume_infos.len()
        invariant
            v <= volume_infos@.len(),
            request_views(r@) == requests_before(volume_infos@, v as int),
        decreases volume_infos@.len() - v,
    {
        let chapters = &volume_infos[v].chapter_infos;
        let ghost base = request_views(r@);
        let mut j: usize = 0;
        while j < chapters.len()
            invariant
                j <= chapters@.len(),
                chapters == volume_infos@[v as int].chapter_infos,
                request_views(r@) == base + requests_in(chapters@, j as int),
            decreases chapters@.len() - j,
        {
            if chapters[j].can_download {
                let ghost before = r@;
                r.push(ChapterRequest { id: chapters[j].id, title: chapters[j].title.clone() });
                assert(request_views(r@) =~= request_views(before).push(
                    (chapters@[j as int].id, chapters@[j as int].title@),
                ));
            }
            j += 1;
            assert(request_views(r@) =~= base + requests_in(chapters@, j as int));
        }
        v += 1;
    }
    r
}

/// The ids of the first `p` requests.
pub open spec fn ids_before(requests: Seq<(u32, Seq<char>)>, p: int) -> Set<u32> {
    Set::new(|id: u32| exists|q: int| 0 <= q < p && (#[trigger] requests[q]).0 == id)
}

/// What the chapter of the `p`-th request receives from the downloaded
/// contents `downloaded`, keyed by chapter id: the contents of its id, unless
/// an earlier request of the same id took them.
pub open spec fn received<I>(
    downloaded: Map<u32, Vec<Content<I>>>,
    requests: Seq<(u32, Seq<char>)>,
    p: int,
) -> Option<Vec<Content<I>>> {
    let id = requests[p].0;
    if downloaded.contains_key(id) && !ids_before(requests, p).contains(id) {
        Some(downloaded[id])
    } else {
        None
    }
}

/// `chapter` is the chapter of the `p`-th request with what it received.
pub open spec fn chapter_assembled<I>(
    downloaded: Map<u32, Vec<Content<I>>>,
    requests: Seq<(u32, Seq<char>)>,
    p: int,
    chapter: Chapter<I>,
) -> bool {
    &&& chapter.id == requests[p].0
    &&& chapter.title@ == requests[p].1
    &&& match received(downloaded, requests, p) {
        Some(contents) => chapter.contents == contents,
        None => chapter.contents@.len() == 0,
    }
}

/// `volume` is the volume of `info`, whose downloadable chapters are the
/// requests from `first` on, with the chapters that they received.
pub open spec fn volume_assembled<I>(
    downloaded: Map<u32, Vec<Content<I>>>,
    requests: Seq<(u32, Seq<char>)>,
    first: int,
    info: VolumeInfo,
    volume: Volume<I>,
) -> bool {
    &&& volume.title@ == info.title@
    &&& volume.chapters@.len() == requests_in(
        info.chapter_infos@,
        info.chapter_infos@.len() as int,
    ).len()
    &&& forall|k: int|
        0 <= k < volume.chapters@.len() ==> chapter_assembled(
            downloaded,
            requests,
            first + k,
            #[trigger] volume.chapters@[k],
        )
}

proof fn requests_in_prefix(chapters: Seq<ChapterInfo>, a: int, b: int)
    requires
        0 <= a <= b,
    ensures
        requests_in(chapters, a).len() <= requests_in(chapters, b).len(),
        forall|q: int|
            0 <= q < requests_in(chapters, a).len() ==> requests_in(chapters, b)[q]
                == requests_in(chapters, a)[q],
    decreases b,
{
    if a < b {
        requests_in_prefix(chapters, a, b - 1);
    }
}

proof fn requests_before_push(volumes: Seq<VolumeInfo>, v: int)
    requires
        0 <= v,
    ensures
        requests_before(volumes, v + 1) == requests_before(volumes, v) + requests_in(
            volumes[v].chapter_infos@,
            volumes[v].chapter_infos@.len() as int,
        ),
{
}

proof fn requests_before_prefix(volumes: Seq<VolumeInfo>, a: int, b: int)
    requires
        0 <= a <= b,
    ensures
        requests_before(volumes, a).len() <= requests_before(volumes, b).len(),
        forall|q: int|
            0 <= q < requests_before(volumes, a).len() ==> requests_before(volumes, b)[q]
                == requests_before(volumes, a)[q],
    decreases b,
{
    if a < b {
        requests_before_prefix(volumes, a, b - 1);
    }
}

/// The novel with the given name, author, introduction and cover, whose
/// volumes are those of `volume_infos` with their downloadable chapters;
/// each chapter takes its contents out of `downloaded`, keyed by chapter id,
/// and a chapter whose contents are not there has none.
pub fn assemble_novel<I>(
    name: String,
    author_name: String,
    introduction: Option<Vec<String>>,
    cover_image: Option<I>,
    volume_infos: &Vec<VolumeInfo>,
    downloaded: &mut HashMap<u32, Vec<Content<I>>>,
) -> (r: Novel<I>)
    ensures
        r.name == name,
        r.author_name == author_name,
        r.introduction == introduction,
        r.cover_image == cover_image,
        r.volumes@.len() == volume_infos@.len(),
        forall|v: int|
            0 <= v < volume_infos@.len() ==> volume_assembled(
                old(downloaded)@,
                requests_before(volume_infos@, volume_infos@.len() as int),
                requests_before(volume_infos@, v).len() as int,
                volume_infos@[v],
                #[trigger] r.volumes@[v],
            ),
        final(downloaded)@ == old(downloaded)@.remove_keys(
            ids_before(
                requests_before(volume_infos@, volume_infos@.len() as int),
                requests_before(volume_infos@, volume_infos@.len() as int).len() as int,
            ),
        ),
{
    let ghost all = requests_before(volume_infos@, volume_infos@.len() as int);
    let ghost map0 = downloaded@;
    let mut volumes: Vec<Volume<I>> = Vec::new();
    let ghost mut p: int = 0;
    let mut v: usize = 0;
    while v < volume_infos.len()
        invariant
            v <= volume_infos@.len(),
            all == requests_before(volume_infos@, volume_infos@.len() as int),
            p == requests_before(volume_infos@, v as int).len(),
            volumes@.len() == v,
            downloaded@ == map0.remove_keys(ids_before(all, p)),
            forall|x: int|
                0 <= x < v ==> volume_assembled(
                    map0,
                    all,
                    requests_before(volume_infos@, x).len() as int,
                    volume_infos@[x],
                    #[trigger] volumes@[x],
                ),
        decreases volume_infos@.len() - v,
    {
        proof {
            requests_before_push(volume_infos@, v as int);
            requests_before_prefix(volume_infos@, v + 1, volume_infos@.len() as int);
        }
        let info = &volume_infos[v];
        let ghost here = requests_in(info.chapter_infos@, info.chapter_infos@.len() as int);
        let mut chapters: Vec<Chapter<I>> = Vec::new();
        let ghost first = p;
        let mut j: usize = 0;
        while j < info.chapter_infos.len()
            invariant
                j <= info.chapter_infos@.len(),
                v < volume_infos@.len(),
                info == volume_infos@[v as int],
                here == requests_in(info.chapter_infos@, info.chapter_infos@.len() as int),
                first == requests_before(volume_infos@, v as int).len(),
                first + here.len() <= all.len(),
                forall|q: int| 0 <= q < here.len() ==> all[first + q] == here[q],
                chapters@.len() == requests_in(info.chapter_infos@, j as int).len(),
                p == first + chapters@.len(),
                downloaded@ == map0.remove_keys(ids_before(all, p)),
                forall|k: int|
                    0 <= k < chapters@.len() ==> chapter_assembled(
                        map0,
                        all,
                        first + k,
                        #[trigger] chapters@[k],
                    ),
            decreases info.chapter_infos@.len() - j,
        {
            let chapter_info = &info.chapter_infos[j];
            if chapter_info.can_download {
                let id = chapter_info.id;
                proof {
                    requests_in_prefix(info.chapter_infos@, j + 1, info.chapter_infos@.len() as int);
                    assert(requests_in(info.chapter_infos@, j + 1 as int) == requests_in(
                        info.chapter_infos@,
                        j as int,
                    ).push((id, chapter_info.title@)));
                    assert(here[chapters@.len() as int] == (id, chapter_info.title@));
                    assert(all[p] == (id, chapter_info.title@));
                }
                let ghost map_before = downloaded@;
                let contents = match downloaded.remove(&id) {
                    Some(c) => c,
                    None => Vec::new(),
                };
                proof {
                    assert forall|x: u32|
                        ids_before(all, p + 1).contains(x) implies ids_before(all, p).insert(
                            id,
                        ).contains(x) by {
                        let q = choose|q: int| 0 <= q < p + 1 && (#[trigger] all[q]).0 == x;
                        if q < p {
                            assert(exists|q: int| 0 <= q < p && (#[trigger] all[q]).0 == x);
                        }
                    }
                    assert forall|x: u32|
                        ids_before(all, p).insert(id).contains(x) implies ids_before(
                            all,
                            p + 1,
                        ).contains(x) by {
                        if x == id {
                            assert(all[p].0 == x);
                            assert(exists|q: int| 0 <= q < p + 1 && (#[trigger] all[q]).0 == x);
                        } else {
                            let q = choose|q: int| 0 <= q < p && (#[trigger] all[q]).0 == x;
                            assert(exists|q: int| 0 <= q < p + 1 && (#[trigger] all[q]).0 == x);
                        }
                    }
                    assert(ids_before(all, p + 1) =~= ids_before(all, p).insert(id));
                    assert(downloaded@ =~= map0.remove_keys(ids_before(all, p + 1)));
                    assert(map_before.contains_key(id) <==> (map0.contains_key(id)
                        && !ids_before(all, p).contains(id)));
                }
                let ghost k = chapters@.len() as int;
                chapters.push(Chapter { id, title: chapter_info.title.clone(), contents });
                proof {
                    assert(chapter_assembled(map0, all, first + k, chapters@[k]));
                    p = p + 1;
                }
            }
            j += 1;
        }
        volumes.push(Volume { title: info.title.clone(), chapters });
        v += 1;
    }
    Novel { name, author_name, introduction, cover_image, volumes }
}

proof fn requests_in_len(chapters: Seq<ChapterInfo>, n: int)
    requires
        0 <= n <= chapters.len(),
    ensures
        requests_in(chapters, n).len() == downloadable_in(chapters, n),
    decreases n,
{
    if n > 0 {
        requests_in_len(chapters, n - 1);
    }
}

/// The progress of a download counts exactly the chapters that are
/// requested: `chapter_count` is the number of `chapter_requests`.
pub proof fn count_matches_requests(volumes: Seq<VolumeInfo>, n: int)
    requires
        0 <= n <= volumes.len(),
    ensures
        requests_before(volumes, n).len() == downloadable_before(volumes, n),
    decreases n,
{
    if n > 0 {
        count_matches_requests(volumes, n - 1);
        requests_in_len(volumes[n - 1].chapter_infos@, volumes[n - 1].chapter_infos@.len() as int);
    }
}

} // verus!
