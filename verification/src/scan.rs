use vstd::prelude::*;
use vstd::string::*;

verus! {

/// True of a file name with the session-log extension, read the way
/// `Path::extension` does: the name ends in `.jsonl` and the dot is
/// not its first character.
pub open spec fn is_log_name(name: Seq<char>) -> bool {
    name.len() > 6 && name.subrange(name.len() - 6, name.len() as int) == seq![
        '.',
        'j',
        's',
        'o',
        'n',
        'l',
    ]
}

/// Decides whether a discovered file is a candidate session log.
pub fn is_session_log_name(name: &str) -> (r: bool)
    ensures
        r == is_log_name(name@),
{
    let len = name.unicode_len();
    if len <= 6 {
        return false;
    }
    let ok = name.get_char(len - 6) == '.' && name.get_char(len - 5) == 'j' && name.get_char(
        len - 4,
    ) == 's' && name.get_char(len - 3) == 'o' && name.get_char(len - 2) == 'n' && name.get_char(
        len - 1,
    ) == 'l';
    proof {
        let sub = name@.subrange(len - 6, len as int);
        let ext = seq!['.', 'j', 's', 'o', 'n', 'l'];
        assert(sub[0] == name@[len - 6]);
        assert(sub[1] == name@[len - 5]);
        assert(sub[2] == name@[len - 4]);
        assert(sub[3] == name@[len - 3]);
        assert(sub[4] == name@[len - 2]);
        assert(sub[5] == name@[len - 1]);
        if ok {
            assert(sub =~= ext);
        } else {
            assert(sub != ext);
        }
    }
    ok
}

} // verus!
