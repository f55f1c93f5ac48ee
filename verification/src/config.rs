//! The configuration record: general settings, key bindings, and the
//! mapping from mode name to regular-expression pattern, with the defaults
//! for every optional field and the record's well-formedness invariant.

use vstd::prelude::*;

verus! {

/// Default number of scrollback lines captured behind the visible pane.
pub fn default_backward_history() -> (r: u32)
    ensures
        r == 10000,
{
    10000
}

/// Default minimum length of a match that survives the line filter.
pub fn default_min_length() -> (r: u8)
    ensures
        r == 10,
{
    10
}

/// Default popup width.
pub fn default_popup_width() -> (r: String)
    ensures
        r@ == "60%"@,
{
    "60%".to_owned()
}

/// Default popup height.
pub fn default_popup_height() -> (r: String)
    ensures
        r@ == "90%"@,
{
    "90%".to_owned()
}

/// Default key that inserts the selection into the pane.
pub fn default_insert_key() -> (r: String)
    ensures
        r@ == "tab"@,
{
    "tab".to_owned()
}

/// Default key that copies the selection to the clipboard.
pub fn default_copy_key() -> (r: String)
    ensures
        r@ == "enter"@,
{
    "enter".to_owned()
}

/// Default key that cycles to the next filter mode.
pub fn default_filter_key() -> (r: String)
    ensures
        r@ == "ctrl-f"@,
{
    "ctrl-f".to_owned()
}

/// The environments for which a default clipboard command is known.
pub enum Platform {
    MacOs,
    LinuxWayland,
    LinuxX11,
}

/// The default clipboard command for a platform.
pub fn default_clipboard_tool(platform: &Platform) -> (r: String)
    ensures
        platform is MacOs ==> r@ == "pbcopy"@,
        platform is LinuxWayland ==> r@ == "wl-copy"@,
        platform is LinuxX11 ==> r@ == "xclip -i -selection clipboard >/dev/null"@,
{
    match platform {
        Platform::MacOs => "pbcopy".to_owned(),
        Platform::LinuxWayland => "wl-copy".to_owned(),
        Platform::LinuxX11 => "xclip -i -selection clipboard >/dev/null".to_owned(),
    }
}

/// General settings.
pub struct General {
    pub backward_history: u32,
    pub min_length: u8,
    pub clip_tool: String,
    pub regex_order: Vec<String>,
    pub popup_width: String,
    pub popup_height: String,
}

/// The named key bindings.
pub struct Keybinds {
    pub insert: String,
    pub copy: String,
    pub filter: String,
}

/// The settings record. The mode-name-to-pattern mapping is held as a list
/// of pairs with distinct names.
pub struct Config {
    pub general: General,
    pub keybinds: Keybinds,
    pub regexes: Vec<(String, String)>,
}

/// The mapping a list of name/pattern pairs stands for.
pub open spec fn pairs_map(ps: Seq<(Seq<char>, Seq<char>)>) -> Map<Seq<char>, Seq<char>>
    decreases ps.len(),
{
    if ps.len() == 0 {
        Map::<Seq<char>, Seq<char>>::empty()
    } else {
        pairs_map(ps.drop_last()).insert(ps.last().0, ps.last().1)
    }
}

/// No two pairs share a name.
pub open spec fn unique_keys(ps: Seq<(Seq<char>, Seq<char>)>) -> bool {
    forall|i: int, j: int| 0 <= i < j < ps.len() ==> ps[i].0 != ps[j].0
}

proof fn lemma_pairs_map_key(ps: Seq<(Seq<char>, Seq<char>)>, k: Seq<char>)
    ensures
        pairs_map(ps).contains_key(k) <==> exists|i: int| 0 <= i < ps.len() && ps[i].0 == k,
    decreases ps.len(),
{
    if ps.len() > 0 {
        lemma_pairs_map_key(ps.drop_last(), k);
        if ps.last().0 == k {
            assert(ps[ps.len() - 1].0 == k);
        }
        if exists|i: int| 0 <= i < ps.drop_last().len() && ps.drop_last()[i].0 == k {
            let w = choose|i: int| 0 <= i < ps.drop_last().len() && ps.drop_last()[i].0 == k;
            assert(ps[w].0 == k);
        }
        if pairs_map(ps).contains_key(k) && ps.last().0 != k {
            assert(pairs_map(ps.drop_last()).contains_key(k));
        }
        if exists|i: int| 0 <= i < ps.len() && ps[i].0 == k {
            let w = choose|i: int| 0 <= i < ps.len() && ps[i].0 == k;
            if w < ps.len() - 1 {
                assert(ps.drop_last()[w].0 == k);
            }
        }
    }
}

proof fn lemma_pairs_map_val(ps: Seq<(Seq<char>, Seq<char>)>, i: int)
    requires
        unique_keys(ps),
        0 <= i < ps.len(),
    ensures
        pairs_map(ps).contains_key(ps[i].0),
        pairs_map(ps)[ps[i].0] == ps[i].1,
    decreases ps.len(),
{
    if i == ps.len() - 1 {
        assert(ps.last() == ps[i]);
    } else {
        assert(ps.drop_last()[i] == ps[i]);
        lemma_pairs_map_val(ps.drop_last(), i);
        assert(ps.last().0 != ps[i].0);
    }
}

impl Config {
    /// The name-to-pattern mapping.
    pub open spec fn regex_map(&self) -> Map<Seq<char>, Seq<char>> {
        pairs_map(self.regexes.deep_view())
    }

    /// The record's invariant: mode names are distinct in the mapping, and
    /// every name in the configured mode order has a pattern.
    pub open spec fn wf(&self) -> bool {
        &&& unique_keys(self.regexes.deep_view())
        &&& forall|i: int|
            0 <= i < self.general.regex_order.deep_view().len() ==> self.regex_map().contains_key(
                #[trigger] self.general.regex_order.deep_view()[i],
            )
    }

    /// The pattern configured for `name`.
    pub fn pattern_for(&self, name: &String) -> (r: Option<&String>)
        requires
            unique_keys(self.regexes.deep_view()),
        ensures
            r is Some <==> self.regex_map().contains_key(name@),
            r is Some ==> r.unwrap()@ == self.regex_map()[name@],
    {
        let ghost ps = self.regexes.deep_view();
        let mut i: usize = 0;
        while i < self.regexes.len()
            invariant
                0 <= i <= self.regexes@.len(),
                ps == self.regexes.deep_view(),
                unique_keys(ps),
                forall|j: int| 0 <= j < i ==> ps[j].0 != name@,
            decreases self.regexes@.len() - i,
        {
            if self.regexes[i].0 == *name {
                proof {
                    assert(ps[i as int].0 == name@);
                    lemma_pairs_map_key(ps, name@);
                    lemma_pairs_map_val(ps, i as int);
                }
                return Some(&self.regexes[i].1);
            }
            i = i + 1;
        }
        proof {
            lemma_pairs_map_key(ps, name@);
        }
        None
    }

    /// Checks the record's invariant.
    pub fn is_valid(&self) -> (r: bool)
        ensures
            r == self.wf(),
    {
        let ghost ps = self.regexes.deep_view();
        let mut i: usize = 0;
        while i < self.regexes.len()
            invariant
                0 <= i <= self.regexes@.len(),
                ps == self.regexes.deep_view(),
                forall|a: int, b: int| 0 <= a < b < i ==> ps[a].0 != ps[b].0,
            decreases self.regexes@.len() - i,
        {
            let mut j: usize = 0;
            while j < i
                invariant
                    0 <= j <= i < self.regexes@.len(),
                    ps == self.regexes.deep_view(),
                    forall|a: int| 0 <= a < j ==> ps[a].0 != ps[i as int].0,
                decreases i - j,
            {
                if self.regexes[j].0 == self.regexes[i].0 {
                    proof {
                        assert(ps[j as int].0 == ps[i as int].0);
                        assert(!unique_keys(ps));
                    }
                    return false;
                }
                j = j + 1;
            }
            i = i + 1;
        }
        let mut k: usize = 0;
        while k < self.general.regex_order.len()
            invariant
                0 <= k <= self.general.regex_order@.len(),
                unique_keys(self.regexes.deep_view()),
                forall|a: int|
                    0 <= a < k ==> self.regex_map().contains_key(
                        #[trigger] self.general.regex_order.deep_view()[a],
                    ),
            decreases self.general.regex_order@.len() - k,
        {
            let found = self.pattern_for(&self.general.regex_order[k]);
            proof {
                assert(self.general.regex_order.deep_view()[k as int]
                    == self.general.regex_order@[k as int]@);
            }
            if found.is_none() {
                return false;
            }
            k = k + 1;
        }
        true
    }
}

/// The settings file's path under a home directory.
pub fn config_path_from_home_dir(home_dir: &str) -> (r: String)
    ensures
        r@ == home_dir@ + "/.config/pluckrs/config.toml"@,
{
    let mut r = home_dir.to_owned();
    r.append("/.config/pluckrs/config.toml");
    r
}

} // verus!
