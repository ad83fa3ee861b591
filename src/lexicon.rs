use vstd::prelude::*;

verus! {

/// The language a gloss is written in.
#[derive(Debug, Clone, Copy, PartialEq, Eq, Structural)]
pub enum GlossLanguage {
    English,
    Dutch,
    French,
    German,
    Hungarian,
    Russian,
    Slovenian,
    Spanish,
    Swedish,
}

/// One translation of an entry, tagged with its language.
pub struct Gloss {
    pub language: GlossLanguage,
    pub text: String,
}

/// One entry of the bilingual lexicon: its written forms, its reading
/// forms, and its glosses in their natural order.
pub struct LexiconEntry {
    pub written_forms: Vec<String>,
    pub reading_forms: Vec<String>,
    pub glosses: Vec<Gloss>,
}

/// An immutable lexicon, searched for one target language.
pub struct Lexicon {
    entries: Vec<LexiconEntry>,
    language: GlossLanguage,
}

/// `forms` holds `lemma` exactly.
pub open spec fn has_form(forms: Seq<String>, lemma: Seq<char>) -> bool {
    exists|i: int| 0 <= i < forms.len() && (#[trigger] forms[i])@ == lemma
}

/// An entry matches a lemma when one of its written forms or one of its
/// reading forms equals it.
pub open spec fn entry_matches(e: LexiconEntry, lemma: Seq<char>) -> bool {
    has_form(e.written_forms@, lemma) || has_form(e.reading_forms@, lemma)
}

/// The texts of the glosses in `language`, in their order.
pub open spec fn glosses_in(gs: Seq<Gloss>, language: GlossLanguage) -> Seq<Seq<char>>
    decreases gs.len(),
{
    if gs.len() == 0 {
        Seq::empty()
    } else {
        let rest = glosses_in(gs.drop_last(), language);
        if gs.last().language == language {
            rest.push(gs.last().text@)
        } else {
            rest
        }
    }
}

/// The glosses in `language` of every entry that matches `lemma`, entry by
/// entry in lexicon order.
pub open spec fn lookup_of(
    entries: Seq<LexiconEntry>,
    lemma: Seq<char>,
    language: GlossLanguage,
) -> Seq<Seq<char>>
    decreases entries.len(),
{
    if entries.len() == 0 {
        Seq::empty()
    } else {
        let rest = lookup_of(entries.drop_last(), lemma, language);
        if entry_matches(entries.last(), lemma) {
            rest + glosses_in(entries.last().glosses@, language)
        } else {
            rest
        }
    }
}

/// Whether `lemma` is one of `forms`.
fn contains_form(forms: &Vec<String>, lemma: &String) -> (r: bool)
    ensures
        r == has_form(forms@, lemma@),
{
    let mut i: usize = 0;
    while i < forms.len()
        invariant
            i <= forms.len(),
            forall|j: int| 0 <= j < i ==> (#[trigger] forms@[j])@ != lemma@,
        decreases forms.len() - i,
    {
        if forms[i] == *lemma {
            return true;
        }
        i = i + 1;
    }
    false
}

/// Appends to `out` the texts of the glosses of `gs` in `language`.
fn push_glosses(out: &mut Vec<String>, gs: &Vec<Gloss>, language: GlossLanguage)
    ensures
        final(out).deep_view() == old(out).deep_view() + glosses_in(gs@, language),
{
    let ghost start = out.deep_view();
    let mut i: usize = 0;
    while i < gs.len()
        invariant
            i <= gs.len(),
            out.deep_view() == start + glosses_in(gs@.subrange(0, i as int), language),
        decreases gs.len() - i,
    {
        proof {
            assert(gs@.subrange(0, i + 1).drop_last() =~= gs@.subrange(0, i as int));
        }
        if gs[i].language == language {
            let ghost before = out.deep_view();
            out.push(gs[i].text.clone());
            assert(out.deep_view() =~= before.push(gs@[i as int].text@));
        }
        i = i + 1;
    }
    assert(gs@.subrange(0, gs.len() as int) =~= gs@);
}

/// The glosses in `language` of one matching entry all appear in a lookup.
pub proof fn lemma_lookup_includes_match(
    entries: Seq<LexiconEntry>,
    lemma: Seq<char>,
    language: GlossLanguage,
    i: int,
    g: int,
)
    requires
        0 <= i < entries.len(),
        entry_matches(entries[i], lemma),
        0 <= g < entries[i].glosses@.len(),
        entries[i].glosses@[g].language == language,
    ensures
        lookup_of(entries, lemma, language).contains(entries[i].glosses@[g].text@),
    decreases entries.len(),
{
    if i == entries.len() - 1 {
        lemma_glosses_in_includes(entries[i].glosses@, language, g);
        let rest = lookup_of(entries.drop_last(), lemma, language);
        let own = glosses_in(entries.last().glosses@, language);
        let k = choose|k: int| 0 <= k < own.len() && own[k] == entries[i].glosses@[g].text@;
        assert((rest + own)[rest.len() + k] == own[k]);
    } else {
        assert(entries.drop_last()[i] == entries[i]);
        lemma_lookup_includes_match(entries.drop_last(), lemma, language, i, g);
        let rest = lookup_of(entries.drop_last(), lemma, language);
        let k = choose|k: int| 0 <= k < rest.len() && rest[k] == entries[i].glosses@[g].text@;
        if entry_matches(entries.last(), lemma) {
            let own = glosses_in(entries.last().glosses@, language);
            assert((rest + own)[k] == rest[k]);
        }
    }
}

proof fn lemma_glosses_in_includes(gs: Seq<Gloss>, language: GlossLanguage, g: int)
    requires
        0 <= g < gs.len(),
        gs[g].language == language,
    ensures
        glosses_in(gs, language).contains(gs[g].text@),
    decreases gs.len(),
{
    let rest = glosses_in(gs.drop_last(), language);
    if g == gs.len() - 1 {
        assert(rest.push(gs[g].text@)[rest.len() as int] == gs[g].text@);
    } else {
        assert(gs.drop_last()[g] == gs[g]);
        lemma_glosses_in_includes(gs.drop_last(), language, g);
        let k = choose|k: int| 0 <= k < rest.len() && rest[k] == gs[g].text@;
        if gs.last().language == language {
            assert(rest.push(gs.last().text@)[k] == rest[k]);
        }
    }
}

/// A lemma that no entry's written or reading form equals finds nothing.
pub proof fn lemma_lookup_without_match(
    entries: Seq<LexiconEntry>,
    lemma: Seq<char>,
    language: GlossLanguage,
)
    requires
        forall|i: int| 0 <= i < entries.len() ==> !entry_matches(#[trigger] entries[i], lemma),
    ensures
        lookup_of(entries, lemma, language).len() == 0,
    decreases entries.len(),
{
    if entries.len() > 0 {
        assert forall|i: int| 0 <= i < entries.drop_last().len() implies !entry_matches(
            #[trigger] entries.drop_last()[i],
            lemma,
        ) by {
            assert(entries.drop_last()[i] == entries[i]);
        }
        lemma_lookup_without_match(entries.drop_last(), lemma, language);
        assert(!entry_matches(entries[entries.len() - 1], lemma));
    }
}

impl Lexicon {
    pub closed spec fn entries(&self) -> Seq<LexiconEntry> {
        self.entries@
    }

    pub closed spec fn language(&self) -> GlossLanguage {
        self.language
    }

    /// A lexicon over `entries` whose searches keep glosses in `language`.
    pub fn new(entries: Vec<LexiconEntry>, language: GlossLanguage) -> (r: Self)
        ensures
            r.entries() == entries@,
            r.language() == language,
    {
        Lexicon { entries, language }
    }

    /// The number of entries.
    pub fn len(&self) -> (r: usize)
        ensures
            r == self.entries().len(),
    {
        self.entries.len()
    }

    /// The target language of searches.
    pub fn target_language(&self) -> (r: GlossLanguage)
        ensures
            r == self.language(),
    {
        self.language
    }

    /// Every gloss in the target language of every entry whose written or
    /// reading form equals `lemma` exactly, in lexicon order and in each
    /// entry's order, duplicates kept.
    pub fn lookup_glosses(&self, lemma: &str) -> (r: Vec<String>)
        ensures
            r.deep_view() == lookup_of(self.entries(), lemma@, self.language()),
    {
        let lemma = lemma.to_owned();
        let mut results: Vec<String> = Vec::new();
        let mut i: usize = 0;
        while i < self.entries.len()
            invariant
                i <= self.entries@.len(),
                results.deep_view() == lookup_of(
                    self.entries@.subrange(0, i as int),
                    lemma@,
                    self.language,
                ),
            decreases self.entries@.len() - i,
        {
            proof {
                assert(self.entries@.subrange(0, i + 1).drop_last() =~= self.entries@.subrange(
                    0,
                    i as int,
                ));
            }
            let entry = &self.entries[i];
            let matched = contains_form(&entry.written_forms, &lemma) || contains_form(
                &entry.reading_forms,
                &lemma,
            );
            if matched {
                push_glosses(&mut results, &entry.glosses, self.language);
            }
            i = i + 1;
        }
        assert(self.entries@.subrange(0, self.entries@.len() as int) =~= self.entries@);
        results
    }
}

} // verus!
