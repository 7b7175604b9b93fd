use vstd::prelude::*;

verus! {

/// What reading a cached filter body from disk found.
pub enum ReadResult {
    /// The file existed with this content.
    Found(String),
    /// The file does not exist yet.
    NotFound,
    /// The file system failed in some other way.
    ReadError(String),
}

/// What to do about one filter's content.
pub enum ContentOutcome {
    /// Use this content; when the flag is set, write it to the cache first.
    Use(String, bool),
    /// Report a file system failure.
    Fail(String),
    /// The cache missed and the fetch failed: skip this list this sweep.
    Skip,
}

/// The ghost value of a read result.
pub open spec fn read_model(r: ReadResult) -> Option<Option<Seq<char>>> {
    match r {
        ReadResult::Found(s) => Some(Some(s@)),
        ReadResult::NotFound => Some(None),
        ReadResult::ReadError(_) => None,
    }
}

/// Decides one filter's content for its first load: a cached copy is used
/// as it is; on a cache miss a fetched body is used and written back; a
/// fetch failure on a miss skips the list; any other read failure is
/// reported. The periodic sweep instead refetches every enabled list: see
/// `sweep_content_decision`.
pub fn filter_content_decision(read: ReadResult, fetched: Option<String>) -> (r: ContentOutcome)
    ensures
        read matches ReadResult::Found(s) ==> r == ContentOutcome::Use(s, false),
        read is NotFound ==> (fetched matches Some(body) ==> r == ContentOutcome::Use(body, true)),
        read is NotFound && fetched is None ==> r is Skip,
        read matches ReadResult::ReadError(e) ==> r == ContentOutcome::Fail(e),
{
    match read {
        ReadResult::Found(s) => ContentOutcome::Use(s, false),
        ReadResult::NotFound => match fetched {
            Some(body) => ContentOutcome::Use(body, true),
            None => ContentOutcome::Skip,
        },
        ReadResult::ReadError(e) => ContentOutcome::Fail(e),
    }
}

/// What one periodic sweep decided for one enabled list.
pub enum SweepOutcome {
    /// The fetch succeeded: use this fresh body and overwrite the cached
    /// copy with it.
    UseAndWrite(String),
    /// The fetch failed: use the cached copy, which is left as it is.
    UseCached(String),
    /// The fetch failed and no cached copy exists: skip this list.
    Skip,
}

/// One enabled list's periodic-sweep decision: the list is fetched every
/// sweep; a fetched body replaces the cache and feeds the rebuild; on any
/// fetch failure the cached copy, if any, is used and kept.
pub fn sweep_content_decision(fetched: Option<String>, cached: Option<String>) -> (r: SweepOutcome)
    ensures
        fetched matches Some(body) ==> r == SweepOutcome::UseAndWrite(body),
        fetched is None ==> (cached matches Some(text) ==> r == SweepOutcome::UseCached(text)),
        fetched is None && cached is None ==> r is Skip,
{
    match fetched {
        Some(body) => SweepOutcome::UseAndWrite(body),
        None => match cached {
            Some(text) => SweepOutcome::UseCached(text),
            None => SweepOutcome::Skip,
        },
    }
}

/// The contents that made it, in order.
pub open spec fn somes_of(l: Seq<Option<String>>) -> Seq<Seq<char>>
    decreases l.len(),
{
    if l.len() == 0 {
        Seq::empty()
    } else {
        match l[0] {
            Some(s) => seq![s@] + somes_of(l.drop_first()),
            None => somes_of(l.drop_first()),
        }
    }
}

/// Assembles the texts handed to an engine rebuild: the contents of the
/// enabled lists that could be retrieved this sweep, in order, then the
/// custom rules. A list that failed leaves its previous engine rules to the
/// next successful sweep; it never aborts the rebuild.
pub fn assemble_filter_texts(contents: Vec<Option<String>>, custom: &Vec<String>) -> (r: Vec<
    String,
>)
    ensures
        r.deep_view() == somes_of(contents@) + custom.deep_view(),
{
    let n = contents.len();
    let mut out: Vec<String> = Vec::new();
    proof {
        assert(contents@.skip(0) =~= contents@);
        assert(out.deep_view() + somes_of(contents@.skip(0)) =~~= somes_of(contents@));
    }
    for i in 0..n
        invariant
            n == contents.len(),
            out.deep_view() + somes_of(contents@.skip(i as int)) =~~= somes_of(contents@),
    {
        proof {
            assert(contents@.skip(i as int)[0] == contents@[i as int]);
            assert(contents@.skip(i as int).drop_first() =~= contents@.skip(i + 1));
        }
        match &contents[i] {
            Some(body) => {
                let ghost before = out.deep_view();
                out.push(body.clone());
                proof {
                    assert(out.deep_view() =~~= before.push(contents@[i as int]->0@));
                    assert(before.push(contents@[i as int]->0@) + somes_of(contents@.skip(i + 1))
                        =~~= before + somes_of(contents@.skip(i as int)));
                }
            },
            None => {},
        }
    }
    proof {
        assert(contents@.skip(n as int) =~= Seq::<Option<String>>::empty());
    }
    let m = custom.len();
    let ghost base = out.deep_view();
    for j in 0..m
        invariant
            m == custom.len(),
            out.deep_view() =~~= base + custom.deep_view().take(j as int),
    {
        let ghost before = out.deep_view();
        out.push(custom[j].clone());
        proof {
            assert(out.deep_view() =~~= before.push(custom.deep_view()[j as int]));
            assert(base + custom.deep_view().take(j + 1) =~~= before.push(
                custom.deep_view()[j as int],
            ));
        }
    }
    proof {
        assert(custom.deep_view().take(m as int) =~~= custom.deep_view());
        assert(out.deep_view() =~~= somes_of(contents@) + custom.deep_view());
    }
    out
}

} // verus!
