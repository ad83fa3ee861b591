use vstd::prelude::*;
use crate::error::TokenizerError;
use crate::handle::AnalyzerHandle;
use crate::lexicon::{Lexicon, lookup_of};
use crate::token::{
    Morpheme,
    ResultToken,
    TokenData,
    extract_tokens,
    pos_tag_of,
    projects,
    projects_all,
};

verus! {

/// `r` is `t` with `glosses` attached.
pub open spec fn enriches(t: TokenData, glosses: Seq<Seq<char>>, r: ResultToken) -> bool {
    &&& r.surface@ == t.surface@
    &&& r.dictionary_form@ == t.dictionary_form@
    &&& r.normalized_form@ == t.normalized_form@
    &&& r.reading_form@ == t.reading_form@
    &&& r.pos.deep_view() == t.pos.deep_view()
    &&& r.is_oov == t.is_oov
    &&& r.glosses.deep_view() == glosses
    &&& r.match_found == (glosses.len() > 0)
}

/// `rs` enriches `ts` one for one, in order, with the lexicon's glosses of
/// each token's dictionary form.
pub open spec fn enriches_all(ts: Seq<TokenData>, lexicon: Lexicon, rs: Seq<ResultToken>) -> bool {
    &&& rs.len() == ts.len()
    &&& forall|i: int|
        0 <= i < ts.len() ==> enriches(
            #[trigger] ts[i],
            lookup_of(lexicon.entries(), ts[i].dictionary_form@, lexicon.language()),
            rs[i],
        )
}

/// `rs` annotates the morphemes `ms`: each is projected against the tag
/// table and enriched from the lexicon, in order.
pub open spec fn annotates(
    ms: Seq<Morpheme>,
    table: Seq<Seq<Seq<char>>>,
    lexicon: Lexicon,
    rs: Seq<ResultToken>,
) -> bool {
    &&& rs.len() == ms.len()
    &&& forall|i: int|
        0 <= i < ms.len() ==> {
            &&& (#[trigger] rs[i]).surface@ == ms[i].surface@
            &&& rs[i].dictionary_form@ == ms[i].dictionary_form@
            &&& rs[i].normalized_form@ == ms[i].normalized_form@
            &&& rs[i].reading_form@ == ms[i].reading_form@
            &&& rs[i].pos.deep_view() == pos_tag_of(table, ms[i].pos_id as int)
            &&& rs[i].is_oov == ms[i].is_oov
            &&& rs[i].glosses.deep_view() == lookup_of(
                lexicon.entries(),
                ms[i].dictionary_form@,
                lexicon.language(),
            )
            &&& rs[i].match_found == (rs[i].glosses.len() > 0)
        }
}

/// What tokenization returns for a segmentation: `TokenizeError` where the
/// analyzer failed, else the projection of every morpheme.
pub open spec fn tokenized(
    seg: Option<Vec<Morpheme>>,
    table: Seq<Seq<Seq<char>>>,
    r: Result<Vec<TokenData>, TokenizerError>,
) -> bool {
    match seg {
        None => r == Err::<Vec<TokenData>, TokenizerError>(TokenizerError::TokenizeError),
        Some(ms) => r matches Ok(ts) && projects_all(ms@, table, ts@),
    }
}

/// What annotation returns for a segmentation: `TokenizeError` where the
/// analyzer failed, else every morpheme projected and enriched.
pub open spec fn annotated(
    seg: Option<Vec<Morpheme>>,
    table: Seq<Seq<Seq<char>>>,
    lexicon: Lexicon,
    r: Result<Vec<ResultToken>, TokenizerError>,
) -> bool {
    match seg {
        None => r == Err::<Vec<ResultToken>, TokenizerError>(TokenizerError::TokenizeError),
        Some(ms) => r matches Ok(rs) && annotates(ms@, table, lexicon, rs@),
    }
}

/// The surfaces of a token sequence, in order.
pub open spec fn surfaces(rs: Seq<ResultToken>) -> Seq<Seq<char>> {
    rs.map_values(|r: ResultToken| r.surface@)
}

/// The surfaces of a segmentation, in order.
pub open spec fn morpheme_surfaces(ms: Seq<Morpheme>) -> Seq<Seq<char>> {
    ms.map_values(|m: Morpheme| m.surface@)
}

/// A copy of a list of strings.
fn clone_strings(v: &Vec<String>) -> (r: Vec<String>)
    ensures
        r.deep_view() == v.deep_view(),
{
    let mut r: Vec<String> = Vec::new();
    let mut i: usize = 0;
    while i < v.len()
        invariant
            i <= v.len(),
            r.deep_view() == v.deep_view().subrange(0, i as int),
        decreases v.len() - i,
    {
        let ghost before = r.deep_view();
        r.push(v[i].clone());
        assert(r.deep_view() =~= before.push(v@[i as int]@));
        assert(v.deep_view().subrange(0, i + 1) =~= v.deep_view().subrange(0, i as int).push(
            v@[i as int]@,
        ));
        i = i + 1;
    }
    assert(v.deep_view().subrange(0, v.len() as int) =~= v.deep_view());
    r
}

/// Attaches `glosses` to a token; `match_found` is whether there are any.
pub fn enrich_token(t: &TokenData, glosses: Vec<String>) -> (r: ResultToken)
    ensures
        enriches(*t, glosses.deep_view(), r),
{
    let match_found = glosses.len() > 0;
    ResultToken {
        surface: t.surface.clone(),
        dictionary_form: t.dictionary_form.clone(),
        normalized_form: t.normalized_form.clone(),
        reading_form: t.reading_form.clone(),
        pos: clone_strings(&t.pos),
        is_oov: t.is_oov,
        glosses,
        match_found,
    }
}

/// Enriches every token with the lexicon's glosses of its dictionary form,
/// keeping every token and their order.
pub fn enrich_tokens(tokens: &Vec<TokenData>, lexicon: &Lexicon) -> (r: Vec<ResultToken>)
    ensures
        enriches_all(tokens@, *lexicon, r@),
{
    let mut r: Vec<ResultToken> = Vec::new();
    let mut i: usize = 0;
    while i < tokens.len()
        invariant
            i <= tokens.len(),
            r.len() == i,
            forall|j: int|
                0 <= j < i ==> enriches(
                    #[trigger] tokens@[j],
                    lookup_of(lexicon.entries(), tokens@[j].dictionary_form@, lexicon.language()),
                    r@[j],
                ),
        decreases tokens.len() - i,
    {
        let t = &tokens[i];
        let glosses = lexicon.lookup_glosses(t.dictionary_form.as_str());
        r.push(enrich_token(t, glosses));
        i = i + 1;
    }
    r
}

/// Segments `input` with the shared analyzer and projects every morpheme
/// into a token. `segment` performs the analyzer's segmentation and returns
/// `None` where the analyzer reports a failure.
pub fn tokenize_text<A, F: FnOnce(&A, &str) -> Option<Vec<Morpheme>>>(
    handle: &AnalyzerHandle<A>,
    input: &str,
    segment: F,
) -> (r: Result<Vec<TokenData>, TokenizerError>)
    requires
        forall|a: &A| segment.requires((a, input)),
    ensures
        handle.state() is None ==> r == Err::<Vec<TokenData>, TokenizerError>(
            TokenizerError::DictLoadError,
        ),
        handle.state() matches Some(l) ==> exists|seg|
            segment.ensures((&l.analyzer, input), seg) && #[trigger] tokenized(
                seg,
                l.pos_table.deep_view(),
                r,
            ),
{
    let loaded = match handle.analyzer() {
        Ok(l) => l,
        Err(e) => return Err(e),
    };
    let seg = segment(&loaded.analyzer, input);
    let r = match &seg {
        None => Err(TokenizerError::TokenizeError),
        Some(ms) => Ok(extract_tokens(ms, &loaded.pos_table)),
    };
    assert(tokenized(seg, loaded.pos_table.deep_view(), r));
    r
}

/// Annotates `input`: segments it with the shared analyzer, projects each
/// morpheme and enriches it from the lexicon. Either every token comes back,
/// in the analyzer's order, or an error does.
pub fn lookup_sentence<A, F: FnOnce(&A, &str) -> Option<Vec<Morpheme>>>(
    handle: &AnalyzerHandle<A>,
    lexicon: &Lexicon,
    input: &str,
    segment: F,
) -> (r: Result<Vec<ResultToken>, TokenizerError>)
    requires
        forall|a: &A| segment.requires((a, input)),
    ensures
        handle.state() is None ==> r == Err::<Vec<ResultToken>, TokenizerError>(
            TokenizerError::DictLoadError,
        ),
        handle.state() matches Some(l) ==> exists|seg|
            segment.ensures((&l.analyzer, input), seg) && #[trigger] annotated(
                seg,
                l.pos_table.deep_view(),
                *lexicon,
                r,
            ),
{
    let tokens = tokenize_text(handle, input, segment);
    match tokens {
        Err(e) => {
            proof {
                if let Some(l) = handle.state() {
                    let seg = choose|seg|
                        segment.ensures((&l.analyzer, input), seg) && #[trigger] tokenized(
                            seg,
                            l.pos_table.deep_view(),
                            tokens,
                        );
                    assert(annotated(seg, l.pos_table.deep_view(), *lexicon, Err(e)));
                }
            }
            Err(e)
        },
        Ok(ts) => {
            let rs = enrich_tokens(&ts, lexicon);
            proof {
                let l = handle.state().unwrap();
                let seg = choose|seg|
                    segment.ensures((&l.analyzer, input), seg) && #[trigger] tokenized(
                        seg,
                        l.pos_table.deep_view(),
                        tokens,
                    );
                let ms = seg.unwrap();
                assert forall|i: int| 0 <= i < ms@.len() implies {
                    &&& (#[trigger] rs@[i]).surface@ == ms@[i].surface@
                    &&& rs@[i].dictionary_form@ == ms@[i].dictionary_form@
                    &&& rs@[i].normalized_form@ == ms@[i].normalized_form@
                    &&& rs@[i].reading_form@ == ms@[i].reading_form@
                    &&& rs@[i].pos.deep_view() == pos_tag_of(
                        l.pos_table.deep_view(),
                        ms@[i].pos_id as int,
                    )
                    &&& rs@[i].is_oov == ms@[i].is_oov
                    &&& rs@[i].glosses.deep_view() == lookup_of(
                        lexicon.entries(),
                        ms@[i].dictionary_form@,
                        lexicon.language(),
                    )
                    &&& rs@[i].match_found == (rs@[i].glosses.len() > 0)
                } by {
                    assert(projects(ms@[i], l.pos_table.deep_view(), ts@[i]));
                    assert(enriches(
                        ts@[i],
                        lookup_of(lexicon.entries(), ts@[i].dictionary_form@, lexicon.language()),
                        rs@[i],
                    ));
                }
                assert(annotated(seg, l.pos_table.deep_view(), *lexicon, Ok(rs)));
            }
            Ok(rs)
        },
    }
}

/// Annotation keeps the analyzer's segmentation: the surfaces of the result
/// are the morphemes' surfaces, one for one and in order, so their
/// concatenations are equal too.
pub proof fn lemma_surfaces_preserved(
    ms: Seq<Morpheme>,
    table: Seq<Seq<Seq<char>>>,
    lexicon: Lexicon,
    rs: Seq<ResultToken>,
)
    requires
        annotates(ms, table, lexicon, rs),
    ensures
        surfaces(rs) == morpheme_surfaces(ms),
        surfaces(rs).flatten() == morpheme_surfaces(ms).flatten(),
{
    assert(surfaces(rs) =~= morpheme_surfaces(ms));
}

/// In every annotated token, `match_found` holds exactly when the token has
/// at least one gloss.
pub proof fn lemma_match_found_consistent(
    ms: Seq<Morpheme>,
    table: Seq<Seq<Seq<char>>>,
    lexicon: Lexicon,
    rs: Seq<ResultToken>,
)
    requires
        annotates(ms, table, lexicon, rs),
    ensures
        forall|i: int|
            0 <= i < rs.len() ==> (#[trigger] rs[i]).match_found == !(rs[i].glosses@.len() == 0),
{
}

/// Annotation has no hidden state: two annotations of the same segmentation
/// against the same tag table and lexicon agree token for token.
pub proof fn lemma_annotation_deterministic(
    ms: Seq<Morpheme>,
    table: Seq<Seq<Seq<char>>>,
    lexicon: Lexicon,
    rs1: Seq<ResultToken>,
    rs2: Seq<ResultToken>,
)
    requires
        annotates(ms, table, lexicon, rs1),
        annotates(ms, table, lexicon, rs2),
    ensures
        rs1.len() == rs2.len(),
        forall|i: int|
            0 <= i < rs1.len() ==> {
                &&& (#[trigger] rs1[i]).surface@ == rs2[i].surface@
                &&& rs1[i].dictionary_form@ == rs2[i].dictionary_form@
                &&& rs1[i].normalized_form@ == rs2[i].normalized_form@
                &&& rs1[i].reading_form@ == rs2[i].reading_form@
                &&& rs1[i].pos.deep_view() == rs2[i].pos.deep_view()
                &&& rs1[i].is_oov == rs2[i].is_oov
                &&& rs1[i].glosses.deep_view() == rs2[i].glosses.deep_view()
                &&& rs1[i].match_found == rs2[i].match_found
            },
{
    assert forall|i: int| 0 <= i < rs1.len() implies (#[trigger] rs1[i]).match_found
        == rs2[i].match_found by {
        assert(rs1[i].glosses.deep_view().len() == rs1[i].glosses@.len());
        assert(rs2[i].glosses.deep_view().len() == rs2[i].glosses@.len());
    }
}

} // verus!
