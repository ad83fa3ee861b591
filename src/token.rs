use vstd::prelude::*;

verus! {

/// Number of labels in every part-of-speech tag.
pub const POS_ARITY: usize = 4;

/// One unit of the analyzer's segmentation, as plain values.
pub struct Morpheme {
    pub surface: String,
    pub dictionary_form: String,
    pub normalized_form: String,
    pub reading_form: String,
    /// Index of this unit's tag in the analyzer's part-of-speech table.
    pub pos_id: u16,
    pub is_oov: bool,
}

/// The base annotation of one morpheme.
pub struct TokenData {
    pub surface: String,
    pub dictionary_form: String,
    pub normalized_form: String,
    pub reading_form: String,
    /// Always `POS_ARITY` labels, "*" where the tag table has none.
    pub pos: Vec<String>,
    pub is_oov: bool,
}

/// A token together with the glosses found for its dictionary form.
pub struct ResultToken {
    pub surface: String,
    pub dictionary_form: String,
    pub normalized_form: String,
    pub reading_form: String,
    pub pos: Vec<String>,
    pub is_oov: bool,
    pub glosses: Vec<String>,
    /// Always `!glosses.is_empty()`.
    pub match_found: bool,
}

/// The label that stands for a missing tag-table entry.
pub open spec fn sentinel() -> Seq<char> {
    seq!['*']
}

/// Label `k` of the tag for `id`: the table's label where it has one,
/// the sentinel elsewhere.
pub open spec fn pos_label(table: Seq<Seq<Seq<char>>>, id: int, k: int) -> Seq<char> {
    if 0 <= id < table.len() && 0 <= k < table[id].len() {
        table[id][k]
    } else {
        sentinel()
    }
}

/// The fixed-arity tag that the table gives to `id`.
pub open spec fn pos_tag_of(table: Seq<Seq<Seq<char>>>, id: int) -> Seq<Seq<char>> {
    Seq::new(POS_ARITY as nat, |k: int| pos_label(table, id, k))
}

/// `t` is the projection of `m` against the tag table.
pub open spec fn projects(m: Morpheme, table: Seq<Seq<Seq<char>>>, t: TokenData) -> bool {
    &&& t.surface@ == m.surface@
    &&& t.dictionary_form@ == m.dictionary_form@
    &&& t.normalized_form@ == m.normalized_form@
    &&& t.reading_form@ == m.reading_form@
    &&& t.pos.deep_view() == pos_tag_of(table, m.pos_id as int)
    &&& t.is_oov == m.is_oov
}

/// `ts` projects `ms` one for one, in order.
pub open spec fn projects_all(
    ms: Seq<Morpheme>,
    table: Seq<Seq<Seq<char>>>,
    ts: Seq<TokenData>,
) -> bool {
    &&& ts.len() == ms.len()
    &&& forall|i: int| 0 <= i < ms.len() ==> projects(#[trigger] ms[i], table, ts[i])
}

/// Resolves a part-of-speech identifier against the tag table, degrading to
/// the sentinel for an unknown identifier or a missing label.
pub fn pos_tag(table: &Vec<Vec<String>>, pos_id: u16) -> (r: Vec<String>)
    ensures
        r.deep_view() == pos_tag_of(table.deep_view(), pos_id as int),
        r.len() == POS_ARITY,
{
    let id = pos_id as usize;
    let mut r: Vec<String> = Vec::new();
    let mut k: usize = 0;
    while k < POS_ARITY
        invariant
            k <= POS_ARITY,
            r.len() == k,
            forall|j: int|
                0 <= j < k ==> #[trigger] r.deep_view()[j] == pos_label(table.deep_view(), id as int, j),
        decreases POS_ARITY - k,
    {
        let label = if id < table.len() && k < table[id].len() {
            assert(table@[id as int].deep_view()[k as int] == table@[id as int]@[k as int]@);
            table[id][k].clone()
        } else {
            proof {
                reveal_strlit("*");
            }
            "*".to_owned()
        };
        assert(label@ == pos_label(table.deep_view(), id as int, k as int));
        let ghost before = r.deep_view();
        r.push(label);
        assert(r.deep_view() =~= before.push(label@));
        k = k + 1;
    }
    assert(r.deep_view() =~= pos_tag_of(table.deep_view(), pos_id as int));
    r
}

/// Projects one morpheme into a token: strings and the out-of-vocabulary
/// flag are copied, the tag is resolved against the table.
pub fn project_token(m: &Morpheme, table: &Vec<Vec<String>>) -> (t: TokenData)
    ensures
        projects(*m, table.deep_view(), t),
{
    TokenData {
        surface: m.surface.clone(),
        dictionary_form: m.dictionary_form.clone(),
        normalized_form: m.normalized_form.clone(),
        reading_form: m.reading_form.clone(),
        pos: pos_tag(table, m.pos_id),
        is_oov: m.is_oov,
    }
}

/// Projects every morpheme of a segmentation, keeping their order.
pub fn extract_tokens(morphs: &Vec<Morpheme>, table: &Vec<Vec<String>>) -> (r: Vec<TokenData>)
    ensures
        projects_all(morphs@, table.deep_view(), r@),
{
    let mut r: Vec<TokenData> = Vec::new();
    let mut i: usize = 0;
    while i < morphs.len()
        invariant
            i <= morphs.len(),
            r.len() == i,
            forall|j: int| 0 <= j < i ==> projects(#[trigger] morphs@[j], table.deep_view(), r@[j]),
        decreases morphs.len() - i,
    {
        let t = project_token(&morphs[i], table);
        r.push(t);
        i = i + 1;
    }
    r
}

/// Every projected token has a tag of exactly `POS_ARITY` labels; where the
/// table has no entry for the identifier, every label is the sentinel "*".
pub proof fn lemma_pos_fixed_arity(m: Morpheme, table: Seq<Seq<Seq<char>>>, t: TokenData)
    requires
        projects(m, table, t),
    ensures
        t.pos@.len() == POS_ARITY,
        !(0 <= m.pos_id < table.len()) ==> forall|k: int|
            0 <= k < POS_ARITY ==> (#[trigger] t.pos@[k])@ == sentinel(),
{
    assert(t.pos.deep_view().len() == POS_ARITY);
    assert forall|k: int| 0 <= k < POS_ARITY && !(0 <= m.pos_id < table.len()) implies (
    #[trigger] t.pos@[k])@ == sentinel() by {
        assert(t.pos.deep_view()[k] == t.pos@[k]@);
    }
}

} // verus!
