use vstd::prelude::*;
use vstd::string::{StrSliceExecFns, StringExecFns};
use crate::engine::{
    GET_ASSET_BY_AUTHORITY_METHOD, GET_ASSET_BY_CREATOR_METHOD, GET_ASSET_BY_GROUP_METHOD,
    GET_ASSET_BY_OWNER_METHOD, GET_ASSET_METHOD, GET_ASSET_PROOF_METHOD, GET_SIGNATURES_FOR_ASSET,
    GET_TOKEN_ACCOUNTS_BY_MINT, GET_TOKEN_ACCOUNTS_BY_OWNER, GET_TOKEN_ACCOUNTS_BY_OWNER_AND_MINT,
};
use crate::text::same_text;

verus! {

/// `s` without its trailing colons.
pub open spec fn strip_colons(s: Seq<char>) -> Seq<char>
    decreases s.len(),
{
    if s.len() > 0 && s.last() == ':' {
        strip_colons(s.drop_last())
    } else {
        s
    }
}

/// The non-empty comma-separated fields of `s` from position `i` on, the
/// current field having started at `start`.
pub open spec fn fields_from(s: Seq<char>, start: int, i: int) -> Seq<Seq<char>>
    decreases s.len() - i,
{
    if i >= s.len() || i < start || start < 0 {
        if 0 <= start < s.len() && start <= i {
            seq![s.subrange(start, s.len() as int)]
        } else {
            Seq::empty()
        }
    } else if s[i] == ',' {
        (if i > start {
            seq![s.subrange(start, i)]
        } else {
            Seq::<Seq<char>>::empty()
        }) + fields_from(s, i + 1, i + 1)
    } else {
        fields_from(s, start, i + 1)
    }
}

/// The non-empty comma-separated fields of `s`, in order.
pub open spec fn fields(s: Seq<char>) -> Seq<Seq<char>> {
    fields_from(s, 0, 0)
}

/// Whether a key-file line starts a category block.
pub open spec fn is_header(line: Seq<char>) -> bool {
    line.len() > 0 && line.last() == ':'
}

/// Reading `lines` of a key file: the category in force after them, and
/// every key with its category, in file order. A line ending in `:` starts a
/// category; a non-empty line under a category adds its non-empty
/// comma-separated fields to it; lines before any category are ignored.
pub open spec fn read_lines(lines: Seq<Seq<char>>) -> (Option<Seq<char>>, Seq<(Seq<char>, Seq<char>)>)
    decreases lines.len(),
{
    if lines.len() == 0 {
        (None, Seq::empty())
    } else {
        let (cur, pairs) = read_lines(lines.drop_last());
        let line = lines.last();
        if is_header(line) {
            (Some(strip_colons(line)), pairs)
        } else {
            match cur {
                Some(k) => (cur, pairs + fields(line).map_values(|t: Seq<char>| (k, t))),
                None => (cur, pairs),
            }
        }
    }
}

/// The keys of `method` among `pairs`, in order.
pub open spec fn keys_of(pairs: Seq<(Seq<char>, Seq<char>)>, method: Seq<char>) -> Seq<Seq<char>>
    decreases pairs.len(),
{
    if pairs.len() == 0 {
        Seq::empty()
    } else {
        let rest = keys_of(pairs.drop_last(), method);
        if pairs.last().0 == method {
            rest.push(pairs.last().1)
        } else {
            rest
        }
    }
}

/// The categories among `pairs`, each once, in order of first appearance.
pub open spec fn categories_of(pairs: Seq<(Seq<char>, Seq<char>)>) -> Seq<Seq<char>>
    decreases pairs.len(),
{
    if pairs.len() == 0 {
        Seq::empty()
    } else {
        let rest = categories_of(pairs.drop_last());
        if rest.contains(pairs.last().0) {
            rest
        } else {
            rest.push(pairs.last().0)
        }
    }
}

/// Splits `s` at its commas, keeping the non-empty fields.
pub fn split_fields(s: &str) -> (r: Vec<String>)
    ensures
        r@.map_values(|t: String| t@) == fields(s@),
{
    let n = s.unicode_len();
    let mut r: Vec<String> = Vec::new();
    let mut start: usize = 0;
    let mut i: usize = 0;
    while i < n
        invariant
            0 <= start <= i <= n,
            n == s@.len(),
            r@.map_values(|t: String| t@) + fields_from(s@, start as int, i as int) == fields(s@),
        decreases n - i,
    {
        if s.get_char(i) == ',' {
            let ghost before = r@.map_values(|t: String| t@);
            if i > start {
                let t = String::from_str(s.substring_char(start, i));
                r.push(t);
                assert(r@.map_values(|t: String| t@) =~= before + seq![s@.subrange(start as int, i as int)]);
            }
            start = i + 1;
        }
        i = i + 1;
    }
    let ghost before = r@.map_values(|t: String| t@);
    if start < n {
        let t = String::from_str(s.substring_char(start, n));
        r.push(t);
        assert(r@.map_values(|t: String| t@) =~= before + seq![s@.subrange(start as int, n as int)]);
    } else {
        assert(fields_from(s@, start as int, i as int) =~= Seq::<Seq<char>>::empty());
    }
    r
}

/// `s` without its trailing colons.
pub fn trim_colons(s: &str) -> (r: String)
    ensures
        r@ == strip_colons(s@),
{
    let mut end = s.unicode_len();
    assert(s@.subrange(0, end as int) =~= s@);
    while end > 0 && s.get_char(end - 1) == ':'
        invariant
            0 <= end <= s@.len(),
            strip_colons(s@) == strip_colons(s@.subrange(0, end as int)),
        decreases end,
    {
        assert(s@.subrange(0, end as int).drop_last() =~= s@.subrange(0, end - 1));
        end = end - 1;
    }
    assert(s@.subrange(0, end as int).len() == 0 || s@.subrange(0, end as int).last() != ':');
    String::from_str(s.substring_char(0, end))
}

/// The keys of every method category, as read from a key file.
pub struct FileKeysFetcher {
    pairs: Vec<(String, String)>,
}

/// An injected source of the keys to check, one accessor per category.
pub trait IntegrityVerificationKeysFetcher {
    fn get_verification_required_owners_keys(&self) -> Result<Vec<String>, String>;
    fn get_verification_required_creators_keys(&self) -> Result<Vec<String>, String>;
    fn get_verification_required_authorities_keys(&self) -> Result<Vec<String>, String>;
    fn get_verification_required_groups_keys(&self) -> Result<Vec<String>, String>;
    fn get_verification_required_assets_keys(&self) -> Result<Vec<String>, String>;
    fn get_verification_required_assets_proof_keys(&self) -> Result<Vec<String>, String>;
    fn get_verification_required_tokens_by_owner(&self) -> Result<Vec<String>, String>;
    fn get_verification_required_tokens_by_mint(&self) -> Result<Vec<String>, String>;
    fn get_verification_required_tokens_by_owner_and_mint(&self) -> Result<Vec<(String, String)>, String>;
    fn get_verification_required_signatures_for_asset(&self) -> Result<Vec<String>, String>;
}

pub open spec fn pair_view(p: (String, String)) -> (Seq<char>, Seq<char>) {
    (p.0@, p.1@)
}

impl FileKeysFetcher {
    /// Every key with its category, in file order.
    pub closed spec fn pairs(&self) -> Seq<(Seq<char>, Seq<char>)> {
        self.pairs@.map_values(|p: (String, String)| pair_view(p))
    }

    /// Reads the lines of a key file.
    pub fn new(lines: &Vec<String>) -> (r: FileKeysFetcher)
        ensures
            r.pairs() == read_lines(lines@.map_values(|l: String| l@)).1,
    {
        let ghost views = lines@.map_values(|l: String| l@);
        let mut pairs: Vec<(String, String)> = Vec::new();
        let mut current: Option<String> = None;
        let mut i: usize = 0;
        while i < lines.len()
            invariant
                0 <= i <= lines@.len(),
                views == lines@.map_values(|l: String| l@),
                read_lines(views.subrange(0, i as int)) == (
                    match current {
                        Some(c) => Some(c@),
                        None => None::<Seq<char>>,
                    },
                    pairs@.map_values(|p: (String, String)| pair_view(p)),
                ),
            decreases lines@.len() - i,
        {
            proof {
                assert(views.subrange(0, i + 1).drop_last() =~= views.subrange(0, i as int));
                assert(views.subrange(0, i + 1).last() == lines@[i as int]@);
            }
            let line = lines[i].as_str();
            let n = line.unicode_len();
            if n > 0 && line.get_char(n - 1) == ':' {
                current = Some(trim_colons(line));
            } else {
                match &current {
                    Some(k) => {
                        let ts = split_fields(line);
                        let ghost before = pairs@.map_values(|p: (String, String)| pair_view(p));
                        let mut j: usize = 0;
                        while j < ts.len()
                            invariant
                                0 <= j <= ts@.len(),
                                pairs@.map_values(|p: (String, String)| pair_view(p)) =~= before + ts@.subrange(0, j as int).map_values(
                                    |t: String| (k@, t@),
                                ),
                            decreases ts@.len() - j,
                        {
                            proof {
                                assert(ts@.subrange(0, j + 1).map_values(|t: String| (k@, t@)) =~= ts@.subrange(0, j as int).map_values(
                                    |t: String| (k@, t@),
                                ).push((k@, ts@[j as int]@)));
                            }
                            let ghost old_pairs = pairs@;
                            let e = (k.clone(), ts[j].clone());
                            pairs.push(e);
                            assert(pairs@.map_values(|p: (String, String)| pair_view(p)) =~= old_pairs.map_values(
                                |p: (String, String)| pair_view(p),
                            ).push((k@, ts@[j as int]@)));
                            j = j + 1;
                        }
                        proof {
                            assert(ts@.subrange(0, j as int) =~= ts@);
                            assert(ts@.map_values(|t: String| (k@, t@)) =~= fields(line@).map_values(|t: Seq<char>| (k@, t)));
                        }
                    },
                    None => {},
                }
            }
            i = i + 1;
        }
        assert(views.subrange(0, lines@.len() as int) =~= views);
        FileKeysFetcher { pairs }
    }

    /// The keys of `method_name`, in file order; none when it has no block.
    pub fn read_keys(&self, method_name: &str) -> (r: Result<Vec<String>, String>)
        ensures
            r matches Ok(ks) && ks@.map_values(|t: String| t@) == keys_of(self.pairs(), method_name@),
    {
        let mut r: Vec<String> = Vec::new();
        let mut i: usize = 0;
        while i < self.pairs.len()
            invariant
                0 <= i <= self.pairs@.len(),
                r@.map_values(|t: String| t@) == keys_of(self.pairs().subrange(0, i as int), method_name@),
            decreases self.pairs@.len() - i,
        {
            proof {
                assert(self.pairs().subrange(0, i + 1).drop_last() =~= self.pairs().subrange(0, i as int));
            }
            if same_text(self.pairs[i].0.as_str(), method_name) {
                r.push(self.pairs[i].1.clone());
                assert(r@.map_values(|t: String| t@) =~= keys_of(self.pairs().subrange(0, i as int), method_name@).push(self.pairs@[i as int].1@));
            }
            i = i + 1;
        }
        assert(self.pairs().subrange(0, self.pairs@.len() as int) =~= self.pairs());
        Ok(r)
    }

    /// The categories that have keys, each once, in order of first appearance.
    pub fn categories(&self) -> (r: Vec<String>)
        ensures
            r@.map_values(|t: String| t@) == categories_of(self.pairs()),
    {
        let mut r: Vec<String> = Vec::new();
        let mut i: usize = 0;
        while i < self.pairs.len()
            invariant
                0 <= i <= self.pairs@.len(),
                r@.map_values(|t: String| t@) == categories_of(self.pairs().subrange(0, i as int)),
            decreases self.pairs@.len() - i,
        {
            proof {
                assert(self.pairs().subrange(0, i + 1).drop_last() =~= self.pairs().subrange(0, i as int));
            }
            let ghost seen = r@.map_values(|t: String| t@);
            let mut found = false;
            let mut j: usize = 0;
            while j < r.len()
                invariant
                    0 <= j <= r@.len(),
                    i < self.pairs@.len(),
                    seen == r@.map_values(|t: String| t@),
                    found <==> exists|k: int| 0 <= k < j && seen[k] == self.pairs@[i as int].0@,
                decreases r@.len() - j,
            {
                assert(seen[j as int] == r@[j as int]@);
                if same_text(r[j].as_str(), self.pairs[i].0.as_str()) {
                    found = true;
                }
                j = j + 1;
            }
            proof {
                if seen.contains(self.pairs@[i as int].0@) {
                    let k = choose|k: int| 0 <= k < seen.len() && seen[k] == self.pairs@[i as int].0@;
                    assert(found);
                }
            }
            if !found {
                r.push(self.pairs[i].0.clone());
                assert(r@.map_values(|t: String| t@) =~= seen.push(self.pairs@[i as int].0@));
            }
            i = i + 1;
        }
        assert(self.pairs().subrange(0, self.pairs@.len() as int) =~= self.pairs());
        r
    }
}

pub open spec fn is_paren(c: char) -> bool {
    c == '(' || c == ')'
}

/// `s` without its leading parentheses.
pub open spec fn strip_parens_start(s: Seq<char>) -> Seq<char>
    decreases s.len(),
{
    if s.len() > 0 && is_paren(s[0]) {
        strip_parens_start(s.drop_first())
    } else {
        s
    }
}

/// `s` without its trailing parentheses.
pub open spec fn strip_parens_end(s: Seq<char>) -> Seq<char>
    decreases s.len(),
{
    if s.len() > 0 && is_paren(s.last()) {
        strip_parens_end(s.drop_last())
    } else {
        s
    }
}

/// The part of `s` before its first `;`, or all of it.
pub open spec fn before_semicolon(s: Seq<char>) -> Seq<char>
    decreases s.len(),
{
    if s.len() == 0 || s[0] == ';' {
        Seq::empty()
    } else {
        seq![s[0]] + before_semicolon(s.drop_first())
    }
}

/// An owner-and-mint key written `(owner;mint)`: the parentheses around it
/// are dropped, the first field is the owner and the second the mint; `None`
/// when there is no `;`.
pub open spec fn owner_and_mint(s: Seq<char>) -> Option<(Seq<char>, Seq<char>)> {
    let t = strip_parens_end(strip_parens_start(s));
    let owner = before_semicolon(t);
    if owner.len() == t.len() {
        None
    } else {
        Some((owner, before_semicolon(t.subrange(owner.len() + 1int, t.len() as int))))
    }
}

/// The index of the first `;` of `s` at or after `from`, or its length.
fn semicolon_from(s: &str, from: usize) -> (r: usize)
    requires
        from <= s@.len(),
    ensures
        from <= r <= s@.len(),
        before_semicolon(s@.subrange(from as int, s@.len() as int)) == s@.subrange(from as int, r as int),
{
    let n = s.unicode_len();
    let mut i = n;
    let mut j: usize = n;
    assert(before_semicolon(s@.subrange(n as int, n as int)) =~= Seq::<char>::empty());
    while j > from
        invariant
            from <= j <= n,
            n == s@.len(),
            j <= i <= n,
            before_semicolon(s@.subrange(j as int, n as int)) == s@.subrange(j as int, i as int),
        decreases j,
    {
        let k = j - 1;
        let ghost tail = s@.subrange(k as int, n as int);
        assert(tail.drop_first() =~= s@.subrange(j as int, n as int));
        assert(tail[0] == s@[k as int]);
        if s.get_char(k) == ';' {
            i = k;
            assert(before_semicolon(tail) =~= s@.subrange(k as int, k as int));
        } else {
            assert(seq![s@[k as int]] + s@.subrange(j as int, i as int) =~= s@.subrange(k as int, i as int));
        }
        j = k;
    }
    i
}

/// Parses an owner-and-mint key written `(owner;mint)`.
pub fn parse_owner_and_mint(s: &str) -> (r: Option<(String, String)>)
    ensures
        match owner_and_mint(s@) {
            Some((o, m)) => r matches Some((ro, rm)) && ro@ == o && rm@ == m,
            None => r is None,
        },
{
    let n = s.unicode_len();
    let mut start: usize = 0;
    assert(s@.subrange(0, n as int) =~= s@);
    while start < n && (s.get_char(start) == '(' || s.get_char(start) == ')')
        invariant
            0 <= start <= n,
            n == s@.len(),
            strip_parens_start(s@) == strip_parens_start(s@.subrange(start as int, n as int)),
        decreases n - start,
    {
        assert(s@.subrange(start as int, n as int).drop_first() =~= s@.subrange(start + 1, n as int));
        start = start + 1;
    }
    let mut end: usize = n;
    let ghost lead = s@.subrange(start as int, n as int);
    assert(lead.subrange(0, lead.len() as int) =~= lead);
    while end > start && (s.get_char(end - 1) == '(' || s.get_char(end - 1) == ')')
        invariant
            start <= end <= n,
            n == s@.len(),
            lead == s@.subrange(start as int, n as int),
            strip_parens_end(lead) == strip_parens_end(s@.subrange(start as int, end as int)),
        decreases end,
    {
        assert(s@.subrange(start as int, end as int).drop_last() =~= s@.subrange(start as int, end - 1));
        end = end - 1;
    }
    let t = s.substring_char(start, end);
    let tn = t.unicode_len();
    assert(t@ == strip_parens_end(strip_parens_start(s@)));
    assert(t@.subrange(0, tn as int) =~= t@);
    let first = semicolon_from(t, 0);
    if first == tn {
        return None;
    }
    let second = semicolon_from(t, first + 1);
    Some((String::from_str(t.substring_char(0, first)), String::from_str(t.substring_char(first + 1, second))))
}

impl FileKeysFetcher {
    /// The number of categories that have keys.
    pub fn num_categories(&self) -> (r: usize)
        ensures
            r == categories_of(self.pairs()).len(),
    {
        self.categories().len()
    }

    /// The category at `category_pick` among `categories()` and its key at
    /// `key_pick`: the driver of a load test picks both at random.
    pub fn get_random_command(&self, category_pick: usize, key_pick: usize) -> (r: Option<(String, String)>)
        ensures
            match r {
                Some((c, k)) => category_pick < categories_of(self.pairs()).len()
                    && c@ == categories_of(self.pairs())[category_pick as int]
                    && key_pick < keys_of(self.pairs(), c@).len()
                    && k@ == keys_of(self.pairs(), c@)[key_pick as int],
                None => category_pick >= categories_of(self.pairs()).len()
                    || key_pick >= keys_of(self.pairs(), categories_of(self.pairs())[category_pick as int]).len(),
            },
    {
        let cats = self.categories();
        if category_pick >= cats.len() {
            return None;
        }
        let c = cats[category_pick].clone();
        assert(c@ == cats@.map_values(|t: String| t@)[category_pick as int]);
        let keys = match self.read_keys(c.as_str()) {
            Ok(ks) => ks,
            Err(_) => return None,
        };
        if key_pick >= keys.len() {
            return None;
        }
        let k = keys[key_pick].clone();
        assert(k@ == keys@.map_values(|t: String| t@)[key_pick as int]);
        Some((c, k))
    }

    /// The owner-and-mint pairs of their category, in file order; a key that
    /// is no pair is refused with its text.
    pub fn owner_and_mint_pairs(&self) -> (r: Result<Vec<(String, String)>, String>)
        ensures
            r matches Ok(ps) ==> {
                &&& ps@.len() == keys_of(self.pairs(), GET_TOKEN_ACCOUNTS_BY_OWNER_AND_MINT@).len()
                &&& forall|i: int| 0 <= i < ps@.len() ==> owner_and_mint(
                    #[trigger] keys_of(self.pairs(), GET_TOKEN_ACCOUNTS_BY_OWNER_AND_MINT@)[i],
                ) == Some((ps@[i].0@, ps@[i].1@))
            },
            r is Err ==> exists|i: int| 0 <= i < keys_of(self.pairs(), GET_TOKEN_ACCOUNTS_BY_OWNER_AND_MINT@).len()
                && owner_and_mint(#[trigger] keys_of(self.pairs(), GET_TOKEN_ACCOUNTS_BY_OWNER_AND_MINT@)[i]) is None,
    {
        let sets = match self.read_keys(GET_TOKEN_ACCOUNTS_BY_OWNER_AND_MINT) {
            Ok(ks) => ks,
            Err(e) => return Err(e),
        };
        let ghost views = sets@.map_values(|t: String| t@);
        let mut pairs: Vec<(String, String)> = Vec::new();
        let mut i: usize = 0;
        while i < sets.len()
            invariant
                0 <= i <= sets@.len(),
                views == sets@.map_values(|t: String| t@),
                views == keys_of(self.pairs(), GET_TOKEN_ACCOUNTS_BY_OWNER_AND_MINT@),
                pairs@.len() == i,
                forall|j: int| 0 <= j < i ==> owner_and_mint(#[trigger] views[j]) == Some((pairs@[j].0@, pairs@[j].1@)),
            decreases sets@.len() - i,
        {
            assert(views[i as int] == sets@[i as int]@);
            match parse_owner_and_mint(sets[i].as_str()) {
                Some(p) => pairs.push(p),
                None => return Err(sets[i].clone()),
            }
            i = i + 1;
        }
        Ok(pairs)
    }
}

impl IntegrityVerificationKeysFetcher for FileKeysFetcher {
    fn get_verification_required_owners_keys(&self) -> Result<Vec<String>, String> {
        self.read_keys(GET_ASSET_BY_OWNER_METHOD)
    }

    fn get_verification_required_creators_keys(&self) -> Result<Vec<String>, String> {
        self.read_keys(GET_ASSET_BY_CREATOR_METHOD)
    }

    fn get_verification_required_authorities_keys(&self) -> Result<Vec<String>, String> {
        self.read_keys(GET_ASSET_BY_AUTHORITY_METHOD)
    }

    fn get_verification_required_groups_keys(&self) -> Result<Vec<String>, String> {
        self.read_keys(GET_ASSET_BY_GROUP_METHOD)
    }

    fn get_verification_required_assets_keys(&self) -> Result<Vec<String>, String> {
        self.read_keys(GET_ASSET_METHOD)
    }

    fn get_verification_required_assets_proof_keys(&self) -> Result<Vec<String>, String> {
        self.read_keys(GET_ASSET_PROOF_METHOD)
    }

    fn get_verification_required_tokens_by_owner(&self) -> Result<Vec<String>, String> {
        self.read_keys(GET_TOKEN_ACCOUNTS_BY_OWNER)
    }

    fn get_verification_required_tokens_by_mint(&self) -> Result<Vec<String>, String> {
        self.read_keys(GET_TOKEN_ACCOUNTS_BY_MINT)
    }

    fn get_verification_required_tokens_by_owner_and_mint(&self) -> Result<Vec<(String, String)>, String> {
        self.owner_and_mint_pairs()
    }

    fn get_verification_required_signatures_for_asset(&self) -> Result<Vec<String>, String> {
        self.read_keys(GET_SIGNATURES_FOR_ASSET)
    }
}

} // verus!
