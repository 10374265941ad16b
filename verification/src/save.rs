//! Where battery saves live.

use crate::door32;
use crate::path;
use crate::text;
use vstd::prelude::*;

verus! {

/// The directory for saves: a hidden `.saves` folder next to the ROM; below it a
/// folder of their own for each user.
pub open spec fn saves_dir(rom: Seq<char>, user: Option<Seq<char>>) -> Seq<char> {
    let base = match path::parent_of(rom) {
        Some(dir) => path::joined(dir, ".saves"@),
        None => ".saves"@,
    };
    match user {
        Some(u) => if u.len() > 0 {
            path::joined(base, text::sanitized(u))
        } else {
            base
        },
        None => base,
    }
}

/// The file name of a ROM's save.
pub open spec fn save_name(rom: Seq<char>) -> Seq<char> {
    (match path::stem_of(rom) {
        Some(stem) => stem,
        None => Seq::empty(),
    }) + ".sav"@
}

/// The save file of a ROM.
pub open spec fn save_path(rom: Seq<char>, user: Option<Seq<char>>) -> Seq<char> {
    path::joined(saves_dir(rom, user), save_name(rom))
}

/// What a text or its absence stands for.
pub open spec fn user_view(user: Option<&str>) -> Option<Seq<char>> {
    match user {
        Some(u) => Some(u@),
        None => None,
    }
}

/// Get the saves directory path (hidden .saves folder next to the ROM).
///
/// When `user` is set, saves are isolated under `.saves/<user>/` so each BBS
/// caller keeps their own battery saves; without a user they live directly in
/// `.saves/` (the single-player layout).
fn get_saves_dir(rom_path: &[char], user: Option<&str>) -> (r: String)
    ensures
        r@ == saves_dir(rom_path@, user_view(user)),
{
    let mut dir = String::new();
    match path::parent(rom_path) {
        Some(p) => {
            dir = text::string_of(p);
            path::push(&mut dir, ".saves");
        },
        None => {
            dir.append(".saves");
        },
    }
    if let Some(u) = user {
        if text::chars_of(u).len() > 0 {
            let key = text::sanitize(u);
            path::push(&mut dir, key.as_str());
        }
    }
    dir
}

/// Get the save file path for a ROM (in .saves/ directory with .sav extension)
pub fn get_save_path(rom_path: &str, user: Option<&str>) -> (r: String)
    ensures
        r@ == save_path(rom_path@, user_view(user)),
{
    let rom = text::chars_of(rom_path);
    let mut file = match path::file_stem(rom.as_slice()) {
        Some(stem) => text::string_of(stem),
        None => String::new(),
    };
    file.append(".sav");
    let mut r = get_saves_dir(rom.as_slice(), user);
    path::push(&mut r, file.as_str());
    r
}

/// A save is loaded iff the cartridge has a battery and the file is there.
pub fn loads_save(has_battery: bool, file_exists: bool) -> (r: bool)
    ensures
        r == (has_battery && file_exists),
        r == is_loaded(has_battery, file_exists),
{
    has_battery && file_exists
}

// ---------------------------------------------------------------------------
// Laws
// ---------------------------------------------------------------------------

proof fn lemma_saves_base(rom: Seq<char>)
    ensures
        saves_dir(rom, None).len() > 0,
        saves_dir(rom, None).last() != '/',
{
    reveal_strlit(".saves");
    if let Some(dir) = path::parent_of(rom) {
        let d = path::joined(dir, ".saves"@);
        assert(d.last() == ".saves"@.last());
    }
}

proof fn lemma_user_save_path(rom: Seq<char>, user: Seq<char>)
    requires
        user.len() > 0,
    ensures
        save_path(rom, Some(user)) == saves_dir(rom, None) + seq!['/'] + text::sanitized(user)
            + seq!['/'] + save_name(rom),
{
    lemma_saves_base(rom);
    let base = saves_dir(rom, None);
    let key = text::sanitized(user);
    let dir = path::joined(base, key);
    assert(dir.last() == key.last());
    assert(key.last() != '/');
    assert(save_path(rom, Some(user)) =~= base + seq!['/'] + key + seq!['/'] + save_name(rom));
}

/// Each caller keeps their own saves: users whose keys differ once folded to
/// file-name characters never share a save file, nor does one share the file of
/// the layout without users.
pub proof fn law_saves_are_isolated(rom: Seq<char>, a: Seq<char>, b: Seq<char>)
    requires
        a.len() > 0,
        b.len() > 0,
    ensures
        text::sanitized(a) != text::sanitized(b) ==> save_path(rom, Some(a)) != save_path(
            rom,
            Some(b),
        ),
        save_path(rom, Some(a)) != save_path(rom, None),
{
    lemma_user_save_path(rom, a);
    lemma_user_save_path(rom, b);
    lemma_saves_base(rom);
    let base = saves_dir(rom, None);
    let file = save_name(rom);
    let ka = text::sanitized(a);
    let kb = text::sanitized(b);
    let pa = save_path(rom, Some(a));
    let pb = save_path(rom, Some(b));
    if pa == pb {
        assert(pa.len() == base.len() + 1 + ka.len() + 1 + file.len());
        assert(pb.len() == base.len() + 1 + kb.len() + 1 + file.len());
        assert forall|i: int| 0 <= i < ka.len() implies ka[i] == kb[i] by {
            assert(pa[base.len() + 1 + i] == ka[i]);
            assert(pb[base.len() + 1 + i] == kb[i]);
        }
        assert(ka =~= kb);
    }
    assert(save_path(rom, None) =~= base + seq!['/'] + file);
}

/// Callers that a dropfile tells apart by number never share a save file.
pub proof fn law_numbered_users_are_isolated(rom: Seq<char>, a: u32, b: u32)
    requires
        a > 0,
        b > 0,
        a != b,
    ensures
        save_path(rom, door32::key_of(a)) != save_path(rom, door32::key_of(b)),
{
    let ka = door32::key_of(a)->0;
    let kb = door32::key_of(b)->0;
    door32::law_user_keys_are_distinct(a, b);
    door32::law_user_keys_are_distinct(b, a);
    text::lemma_sanitized_digits(ka);
    text::lemma_sanitized_digits(kb);
    law_saves_are_isolated(rom, ka, kb);
}

/// **Where a game is saved.** In `.saves` next to the ROM, under the ROM's name with the
/// extension `sav`; a caller with a key has a directory of that name there.
pub proof fn law_save_files(dir: Seq<char>, base: Seq<char>, ext: Seq<char>, user: Seq<char>)
    requires
        path::is_dir(dir),
        base.len() > 0,
        !base.contains('/'),
        !ext.contains('/'),
        !ext.contains('.'),
        ext.len() > 0,
        user.len() > 0,
    ensures
        ({
            let rom = dir + seq!['/'] + base + seq!['.'] + ext;
            &&& save_path(rom, None) == dir + "/.saves/"@ + base + ".sav"@
            &&& save_path(rom, Some(Seq::empty())) == dir + "/.saves/"@ + base + ".sav"@
            &&& save_path(rom, Some(user)) == dir + "/.saves/"@ + text::sanitized(user) + seq!['/']
                + base + ".sav"@
        }),
{
    reveal_strlit("/.saves/");
    reveal_strlit(".saves");
    reveal_strlit(".sav");
    let name = base + seq!['.'] + ext;
    assert(!name.contains('/')) by {
        if name.contains('/') {
            let k = choose|k: int| 0 <= k < name.len() && name[k] == '/';
            if k < base.len() {
                assert(base.contains(base[k]));
            } else if k > base.len() {
                assert(ext.contains(ext[k - base.len() - 1]));
            }
        }
    }
    assert(name.len() >= 3);
    let rom = dir + seq!['/'] + base + seq!['.'] + ext;
    assert(rom == dir + seq!['/'] + name);
    path::law_joined_paths_come_apart(dir, name);
    path::law_names_come_apart(base, ext);
    assert(path::stem_of(rom) == Some(base));
    let below = ".saves"@;
    let saves = dir.push('/') + below;
    assert(path::joined(dir, below) == saves);
    assert(saves.last() == 's');
    let file = base + ".sav"@;
    assert(save_path(rom, None) == saves.push('/') + file);
    assert(saves.push('/') + file =~= dir + "/.saves/"@ + base + ".sav"@);
    let key = text::sanitized(user);
    let own = saves.push('/') + key;
    assert(path::joined(saves, key) == own);
    assert(key.len() == user.len());
    text::law_sanitized_names(user, user.len() - 1);
    assert(own.last() == key.last());
    assert(own.last() != '/');
    assert(save_path(rom, Some(user)) == own.push('/') + file);
    assert(own.push('/') + file =~= dir + "/.saves/"@ + key + seq!['/'] + base + ".sav"@);
}

/// A save is loaded.
pub open spec fn is_loaded(has_battery: bool, file_exists: bool) -> bool {
    has_battery && file_exists
}

/// Neither a cartridge without a battery nor one without a save file loads a save; any
/// other does.
pub proof fn law_saves_need_a_battery(has_battery: bool, file_exists: bool)
    ensures
        !is_loaded(false, file_exists),
        !is_loaded(has_battery, false),
        is_loaded(true, true),
{
}

/// A caller's saves go under the caller's own name.
pub proof fn law_callers_have_their_names(user: &str)
    ensures
        user_view(Some(user)) == Some(user@),
        user_view(None) is None,
{
}

} // verus!
