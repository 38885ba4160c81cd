//! Application state kept between commands: files shared into the app
//! before the interface collects them, and the data directory's name.
use vstd::prelude::*;

use crate::text::{chars_of, trim, trim_chars};
use vstd::string::StringExecFns;

verus! {

/// Files shared into the app, waiting for the interface.
pub struct PendingShareFiles {
    paths: Vec<String>,
}

/// The texts of a list of strings.
pub open spec fn texts(v: Seq<String>) -> Seq<Seq<char>> {
    v.map_values(|s: String| s@)
}

/// The paths of `v` that are not blank, in order.
pub open spec fn non_blank(v: Seq<Seq<char>>) -> Seq<Seq<char>>
    decreases v.len(),
{
    if v.len() == 0 {
        Seq::empty()
    } else if trim(v.last()).len() == 0 {
        non_blank(v.drop_last())
    } else {
        non_blank(v.drop_last()).push(v.last())
    }
}

impl View for PendingShareFiles {
    type V = Seq<Seq<char>>;

    closed spec fn view(&self) -> Seq<Seq<char>> {
        texts(self.paths@)
    }
}

impl PendingShareFiles {
    /// Nothing waiting.
    pub fn new() -> (r: Self)
        ensures
            r@ == Seq::<Seq<char>>::empty(),
    {
        let r = PendingShareFiles { paths: Vec::new() };
        proof {
            assert(r@ =~= Seq::<Seq<char>>::empty());
        }
        r
    }

    /// Adds the non-blank `paths` after those already waiting.
    pub fn queue_share_files(&mut self, paths: Vec<String>)
        ensures
            final(self)@ == old(self)@ + non_blank(texts(paths@)),
    {
        let n = paths.len();
        let mut i: usize = 0;
        let ghost start = self@;
        proof {
            assert(texts(paths@).take(0) =~= Seq::<Seq<char>>::empty());
            assert(start + non_blank(Seq::<Seq<char>>::empty()) =~= start);
        }
        while i < n
            invariant
                n == paths@.len(),
                i <= n,
                self@ == start + non_blank(texts(paths@).take(i as int)),
            decreases n - i,
        {
            let path = paths[i].clone();
            let chars = chars_of(path.as_str());
            let blank = trim_chars(chars.as_slice()).len() == 0;
            let ghost before = self@;
            proof {
                let t = texts(paths@).take(i + 1);
                assert(t.drop_last() =~= texts(paths@).take(i as int));
                assert(t.last() == path@);
            }
            if !blank {
                self.paths.push(path);
                proof {
                    assert(self@ =~= before.push(paths@[i as int]@));
                }
            }
            i = i + 1;
        }
        proof {
            assert(texts(paths@).take(n as int) =~= texts(paths@));
        }
    }

    /// Takes all waiting paths, leaving none.
    pub fn take_share_files(&mut self) -> (r: Vec<String>)
        ensures
            texts(r@) == old(self)@,
            final(self)@ == Seq::<Seq<char>>::empty(),
    {
        let mut taken: Vec<String> = Vec::new();
        std::mem::swap(&mut taken, &mut self.paths);
        proof {
            assert(self@ =~= Seq::<Seq<char>>::empty());
        }
        taken
    }
}

/// Whether `s` ends with `suffix`.
pub open spec fn ends_with(s: Seq<char>, suffix: Seq<char>) -> bool {
    suffix.len() <= s.len() && s.skip(s.len() - suffix.len()) == suffix
}

/// The name of the data directory: debug builds keep their data apart under
/// a `.debug` name.
pub open spec fn data_dir_name(file_name: Seq<char>, debug_build: bool) -> Seq<char> {
    if debug_build && !ends_with(file_name, ".debug"@) {
        file_name + ".debug"@
    } else {
        file_name
    }
}

/// The data directory name for `file_name` in this build flavour.
pub fn app_data_dir_name(file_name: &str, debug_build: bool) -> (r: String)
    ensures
        r@ == data_dir_name(file_name@, debug_build),
{
    let chars = chars_of(file_name);
    let suffix = chars_of(".debug");
    let mut has_suffix = false;
    let n = chars.len();
    if suffix.len() <= n {
        let start = n - suffix.len();
        let mut k: usize = 0;
        has_suffix = true;
        while k < suffix.len()
            invariant
                chars@ == file_name@,
                n == chars@.len(),
                start + suffix@.len() == chars@.len(),
                k <= suffix@.len(),
                has_suffix == forall|j: int| 0 <= j < k ==> chars@[start + j] == suffix@[j],
            decreases suffix@.len() - k,
        {
            has_suffix = has_suffix && chars[start + k] == suffix[k];
            proof {
                if !has_suffix {
                    assert(!(forall|j: int| 0 <= j < k + 1 ==> chars@[start + j] == suffix@[j]));
                }
            }
            k = k + 1;
        }
        proof {
            if has_suffix {
                assert(file_name@.skip(start as int) =~= suffix@);
            } else {
                if file_name@.skip(start as int) == suffix@ {
                    assert(forall|j: int| 0 <= j < suffix@.len() ==> chars@[start + j] == file_name@.skip(start as int)[j]);
                }
            }
        }
    }
    let mut out = file_name.to_owned();
    if debug_build && !has_suffix {
        out.append(".debug");
    }
    out
}

} // verus!
