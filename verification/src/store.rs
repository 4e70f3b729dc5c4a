//! Where settings, presets and themes are kept. One folder holds everything: a settings
//! file, a folder of presets and a folder of themes, one `.toml` file per saved entry.
//! The library decides what a saved entry's file is called and how a folder's files
//! are listed; reading and writing the files is the caller's.

use vstd::prelude::*;

use crate::settings::{sanitise_name, sanitised};
use crate::text::{
    chars_of, is_stable_order, lowercase, slice_chars, stable_order, string_of,
    unicode_lowercase,
};

verus! {

/// The extension a saved entry's file carries, with its dot.
pub open spec fn toml_ext() -> Seq<char> {
    seq!['.', 't', 'o', 'm', 'l']
}

/// The file a preset or theme saved as `name` is kept in: the sanitised name with
/// `.toml` after it, or `None` when nothing usable is left of the name.
pub open spec fn spec_entry_file(name: Seq<char>) -> Option<Seq<char>> {
    let n = sanitised(name);
    if n.len() == 0 {
        None
    } else {
        Some(n + toml_ext())
    }
}

/// The name of the entry a file of a preset or theme folder holds: its name without
/// the extension when the extension is `toml`. A name that is only `.toml` has no
/// extension at all, as with a hidden file.
pub open spec fn toml_stem(file: Seq<char>) -> Option<Seq<char>> {
    if file.len() > toml_ext().len() && file.subrange(file.len() - 5, file.len() as int)
        == toml_ext() {
        Some(file.subrange(0, file.len() - 5))
    } else {
        None
    }
}

/// The entries that the files of a folder hold, in the order the files came.
pub open spec fn entry_names(files: Seq<Seq<char>>) -> Seq<Seq<char>>
    decreases files.len(),
{
    if files.len() == 0 {
        Seq::empty()
    } else {
        let rest = entry_names(files.drop_last());
        match toml_stem(files.last()) {
            Some(n) => rest.push(n),
            None => rest,
        }
    }
}

/// Each name's lower-case form, the key a listing is sorted by.
pub open spec fn sort_keys(names: Seq<Seq<char>>) -> Seq<Seq<char>> {
    Seq::new(names.len(), |i: int| unicode_lowercase(names[i]))
}

/// `names` taken in the order `order` gives.
pub open spec fn arranged(names: Seq<Seq<char>>, order: Seq<int>) -> Seq<Seq<char>> {
    Seq::new(order.len(), |i: int| names[order[i]])
}

/// The texts of `v`.
pub open spec fn texts(v: Seq<String>) -> Seq<Seq<char>> {
    Seq::new(v.len(), |i: int| v[i]@)
}

/// What a folder holding `files` lists: its entries, sorted by their lower-case form
/// and, where two forms are equal, in the order their files came.
pub open spec fn is_listing(files: Seq<Seq<char>>, listed: Seq<Seq<char>>) -> bool {
    exists|order: Seq<int>|
        #[trigger] is_stable_order(sort_keys(entry_names(files)), order) && listed == arranged(
            entry_names(files),
            order,
        )
}

/// The file that a preset or theme saved as `name` is kept in, within its folder.
/// `None` when the name has nothing usable in it.
pub fn entry_file(name: &str) -> (r: Option<String>)
    ensures
        match r {
            Some(f) => spec_entry_file(name@) == Some(f@),
            None => spec_entry_file(name@) is None,
        },
{
    let mut n = sanitise_name(name);
    if chars_of(n.as_str()).len() == 0 {
        return None;
    }
    crate::text::push_char(&mut n, '.');
    crate::text::push_char(&mut n, 't');
    crate::text::push_char(&mut n, 'o');
    crate::text::push_char(&mut n, 'm');
    crate::text::push_char(&mut n, 'l');
    proof {
        assert(n@ =~= sanitised(name@) + toml_ext());
    }
    Some(n)
}

/// The entry a file of a preset or theme folder holds, if its extension is `toml`.
pub fn entry_of_file(file: &str) -> (r: Option<String>)
    ensures
        match r {
            Some(n) => toml_stem(file@) == Some(n@),
            None => toml_stem(file@) is None,
        },
{
    let v = chars_of(file);
    let len = v.len();
    if len > 5 && v[len - 5] == '.' && v[len - 4] == 't' && v[len - 3] == 'o' && v[len - 2]
        == 'm' && v[len - 1] == 'l' {
        proof {
            assert(file@.subrange(file@.len() - 5, file@.len() as int) =~= toml_ext());
        }
        Some(string_of(&slice_chars(&v, 0, len - 5)))
    } else {
        proof {
            if len > 5 {
                let tail = file@.subrange(file@.len() - 5, file@.len() as int);
                if tail == toml_ext() {
                    assert(tail[0] == '.' && tail[1] == 't' && tail[2] == 'o' && tail[3] == 'm'
                        && tail[4] == 'l');
                }
            }
        }
        None
    }
}

/// How a folder holding the files `files` is listed: the names of its `.toml` entries,
/// sorted by their lower-case form; entries whose forms are equal keep the order their
/// files came in.
pub fn list_entries(files: &Vec<String>) -> (r: Vec<String>)
    ensures
        is_listing(texts(files@), texts(r@)),
{
    let ghost fs = texts(files@);
    let mut names: Vec<String> = Vec::new();
    let mut keys: Vec<Vec<char>> = Vec::new();
    let mut i: usize = 0;
    while i < files.len()
        invariant
            i <= files.len(),
            fs == texts(files@),
            texts(names@) == entry_names(fs.subrange(0, i as int)),
            crate::text::texts_of(keys@) == sort_keys(texts(names@)),
            keys@.len() == names@.len(),
        decreases files.len() - i,
    {
        proof {
            assert(fs.subrange(0, i + 1).drop_last() =~= fs.subrange(0, i as int));
        }
        let ghost prefix = fs.subrange(0, i as int);
        let ghost upto = fs.subrange(0, i + 1);
        proof {
            assert(upto.last() == files@[i as int]@);
        }
        match entry_of_file(files[i].as_str()) {
            Some(n) => {
                let key = chars_of(lowercase(n.as_str()).as_str());
                let ghost before_names = names@;
                let ghost before_keys = keys@;
                proof {
                    assert(key@ == unicode_lowercase(n@));
                }
                names.push(n);
                keys.push(key);
                proof {
                    assert(entry_names(upto) == entry_names(prefix).push(n@));
                    assert(texts(names@) =~= texts(before_names).push(n@));
                    assert(texts(names@) =~= entry_names(fs.subrange(0, i + 1)));
                    assert forall|k: int| 0 <= k < keys@.len() implies #[trigger] keys@[k]@
                        == sort_keys(texts(names@))[k] by {
                        if k < before_keys.len() {
                            assert(keys@[k] == before_keys[k]);
                            assert(crate::text::texts_of(before_keys)[k] == sort_keys(texts(before_names))[k]);
                            assert(texts(names@)[k] == texts(before_names)[k]);
                        } else {
                            assert(keys@[k] == key);
                            assert(texts(names@)[k] == n@);
                        }
                    }
                    assert(crate::text::texts_of(keys@) =~= sort_keys(texts(names@)));
                }
            },
            None => {
                proof {
                    assert(texts(names@) =~= entry_names(fs.subrange(0, i + 1)));
                }
            },
        }
        i = i + 1;
    }
    proof {
        assert(fs.subrange(0, files@.len() as int) =~= fs);
    }
    let order = stable_order(&keys);
    let ghost o = crate::text::positions_of(order@);
    proof {
        assert(texts(names@) == entry_names(fs));
    }
    let mut r: Vec<String> = Vec::new();
    let mut j: usize = 0;
    while j < order.len()
        invariant
            j <= order.len(),
            is_stable_order(sort_keys(texts(names@)), o),
            o == crate::text::positions_of(order@),
            order@.len() == names@.len(),
            texts(names@) == entry_names(fs),
            r@.len() == j,
            texts(r@) =~= arranged(texts(names@), o.subrange(0, j as int)),
        decreases order.len() - j,
    {
        assert(0 <= o[j as int] < names@.len());
        let n = names[order[j]].clone();
        let ghost before_r = r@;
        r.push(n);
        proof {
            assert(o[j as int] == order@[j as int] as int);
            assert(r@[j as int]@ == texts(names@)[o[j as int]]);
            assert(texts(r@) =~= texts(before_r).push(texts(names@)[o[j as int]]));
            assert(texts(r@) =~= arranged(texts(names@), o.subrange(0, j + 1)));
        }
        j = j + 1;
    }
    proof {
        assert(o.subrange(0, order@.len() as int) =~= o);
        assert(texts(r@) == arranged(entry_names(fs), o));
        assert(is_stable_order(sort_keys(entry_names(fs)), o));
    }
    r
}

/// An entry saved under any name lists under its sanitised name: the file it is kept in
/// reads back as that name.
pub proof fn lemma_saved_entry_lists_under_its_name(name: Seq<char>)
    requires
        spec_entry_file(name) is Some,
    ensures
        toml_stem(spec_entry_file(name)->0) == Some(sanitised(name)),
{
    let n = sanitised(name);
    let f = n + toml_ext();
    assert(f.subrange(f.len() - 5, f.len() as int) =~= toml_ext());
    assert(f.subrange(0, f.len() - 5) =~= n);
}

/// Where settings, presets and themes live.
pub struct Store {
    dir: String,
}

impl Store {
    /// The folder the store keeps its files in.
    pub closed spec fn folder(&self) -> Seq<char> {
        self.dir@
    }

    pub fn new(dir: String) -> (r: Store)
        ensures
            r.folder() == dir@,
    {
        Store { dir }
    }

    pub fn dir(&self) -> (r: &str)
        ensures
            r@ == self.folder(),
    {
        self.dir.as_str()
    }

    /// The file in the preset folder that a preset saved as `name` is kept in, or
    /// `None` when the name has nothing usable in it.
    pub fn preset_file(&self, name: &str) -> (r: Option<String>)
        ensures
            match r {
                Some(f) => spec_entry_file(name@) == Some(f@),
                None => spec_entry_file(name@) is None,
            },
    {
        entry_file(name)
    }

    /// The file in the theme folder that a theme saved as `name` is kept in, or `None`
    /// when the name has nothing usable in it.
    pub fn theme_file(&self, name: &str) -> (r: Option<String>)
        ensures
            match r {
                Some(f) => spec_entry_file(name@) == Some(f@),
                None => spec_entry_file(name@) is None,
            },
    {
        entry_file(name)
    }

    /// The saved presets, given the files of the preset folder: sorted without regard
    /// to case.
    pub fn list_presets(&self, files: &Vec<String>) -> (r: Vec<String>)
        ensures
            is_listing(texts(files@), texts(r@)),
    {
        list_entries(files)
    }

    /// The saved themes, given the files of the theme folder: sorted without regard to
    /// case.
    pub fn list_themes(&self, files: &Vec<String>) -> (r: Vec<String>)
        ensures
            is_listing(texts(files@), texts(r@)),
    {
        list_entries(files)
    }
}

} // verus!

verus! {

/// Where the settings folder is, as a folder the environment names and the steps below
/// it: `%APPDATA%\Sonorant` on Windows; elsewhere `$XDG_CONFIG_HOME/sonorant` where that
/// is set and not empty, else `$HOME/.config/sonorant`; nothing where the variable
/// needed is unset.
pub open spec fn spec_settings_folder<T>(
    windows: bool,
    app_data: Option<T>,
    config_home: Option<T>,
    config_home_empty: bool,
    home: Option<T>,
) -> Option<(T, Seq<Seq<char>>)> {
    if windows {
        match app_data {
            Some(a) => Some((a, seq!["Sonorant"@])),
            None => None,
        }
    } else if config_home is Some && !config_home_empty {
        Some((config_home->0, seq!["sonorant"@]))
    } else {
        match home {
            Some(h) => Some((h, seq![".config"@, "sonorant"@])),
            None => None,
        }
    }
}

/// The settings folder: the folder an environment variable names, and the steps below
/// it, for the caller to join. `app_data`, `config_home` and `home` are what
/// `APPDATA`, `XDG_CONFIG_HOME` and `HOME` hold, where they are set, and
/// `config_home_empty` whether `XDG_CONFIG_HOME` is set to nothing.
pub fn settings_folder<T>(
    windows: bool,
    app_data: Option<T>,
    config_home: Option<T>,
    config_home_empty: bool,
    home: Option<T>,
) -> (r: Option<(T, Vec<&'static str>)>)
    ensures
        match r {
            Some((base, steps)) => spec_settings_folder(windows, app_data, config_home, config_home_empty, home)
                == Some((base, steps@.map_values(|s: &'static str| s@))),
            None => spec_settings_folder(windows, app_data, config_home, config_home_empty, home) is None,
        },
{
    if windows {
        match app_data {
            Some(a) => {
                let steps = vec!["Sonorant"];
                proof {
                    assert(steps@.map_values(|s: &'static str| s@) =~= seq!["Sonorant"@]);
                }
                Some((a, steps))
            },
            None => None,
        }
    } else {
        match config_home {
            Some(c) if !config_home_empty => {
                let steps = vec!["sonorant"];
                proof {
                    assert(steps@.map_values(|s: &'static str| s@) =~= seq!["sonorant"@]);
                }
                Some((c, steps))
            },
            _ => match home {
                Some(h) => {
                    let steps = vec![".config", "sonorant"];
                    proof {
                        assert(steps@.map_values(|s: &'static str| s@) =~= seq![".config"@, "sonorant"@]);
                    }
                    Some((h, steps))
                },
                None => None,
            },
        }
    }
}

} // verus!
