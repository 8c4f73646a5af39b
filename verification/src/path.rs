//! Paths as the operating system's bytes, and file names as text.
use vstd::prelude::*;
use vstd::utf8::*;
use crate::text;

verus! {

/// Whether a path starts at the root.
pub open spec fn is_absolute(path: Seq<u8>) -> bool {
    path.len() > 0 && path[0] == 0x2f
}

/// Whether a path starts at the root.
pub fn absolute(path: &[u8]) -> (yes: bool)
    ensures
        yes == is_absolute(path@),
{
    path.len() > 0 && path[0] == 0x2f
}

/// The path of `name`, a relative path, below `base`.
pub open spec fn below(base: Seq<u8>, name: Seq<u8>) -> Seq<u8> {
    if base.len() == 0 || base.last() == 0x2f {
        base + name
    } else {
        base.push(0x2f) + name
    }
}

/// Appends `name`, a relative path, to a path.
pub fn push_name(path: &mut Vec<u8>, name: &str)
    ensures
        final(path)@ == below(old(path)@, encode_utf8(name@)),
{
    if path.len() > 0 && path[path.len() - 1] != 0x2f {
        path.push(0x2f);
    }
    let ghost start = path@;
    let bytes = name.as_bytes();
    let mut i: usize = 0;
    while i < bytes.len()
        invariant
            i <= bytes.len(),
            path@ == start + bytes@.take(i as int),
        decreases bytes.len() - i,
    {
        path.push(bytes[i]);
        assert(path@ =~= start + bytes@.take(i + 1));
        i += 1;
    }
    assert(bytes@.take(bytes@.len() as int) =~= bytes@);
}

/// The path of `name`, a relative path, below `base`.
pub fn joined_path(base: &[u8], name: &str) -> (path: Vec<u8>)
    ensures
        path@ == below(base@, encode_utf8(name@)),
{
    let mut path = text::copy_bytes(base);
    push_name(&mut path, name);
    path
}

/// The last part of a path that names something: trailing separators and `.` parts are passed
/// over, and neither the root nor `..` is a name.
pub open spec fn file_name(path: Seq<char>) -> Option<Seq<char>> {
    let parts = text::split(path, '/');
    last_name(parts)
}

/// The last of the parts that is neither empty nor `.`, unless that is `..`.
pub open spec fn last_name(parts: Seq<Seq<char>>) -> Option<Seq<char>>
    decreases parts.len(),
{
    if parts.len() == 0 {
        None
    } else {
        let last = parts.last();
        if last.len() == 0 || last == seq!['.'] {
            last_name(parts.drop_last())
        } else if last == seq!['.', '.'] {
            None
        } else {
            Some(last)
        }
    }
}

/// The position of the last dot of a name.
pub open spec fn last_dot(name: Seq<char>) -> Option<int>
    decreases name.len(),
{
    if name.len() == 0 {
        None
    } else if name.last() == '.' {
        Some(name.len() - 1)
    } else {
        last_dot(name.drop_last())
    }
}

/// What follows the last dot of a path's file name; nothing where the only dot starts the name.
pub open spec fn extension(path: Seq<char>) -> Option<Seq<char>> {
    match file_name(path) {
        Some(name) => match last_dot(name) {
            Some(dot) => if dot > 0 {
                Some(name.skip(dot + 1))
            } else {
                None
            },
            None => None,
        },
        None => None,
    }
}

/// The file name of a path.
pub fn file_name_of(path: &str) -> (name: Option<Vec<char>>)
    ensures
        match name {
            Some(value) => file_name(path@) == Some(value@),
            None => file_name(path@) is None,
        },
{
    let chars = text::chars_of(path);
    let mut parts = text::split_chars(&chars, '/');
    let ghost whole = text::views(parts@);
    while parts.len() > 0
        invariant
            last_name(text::views(parts@)) == file_name(path@),
        decreases parts.len(),
    {
        let ghost before = parts@;
        let part = parts.pop().unwrap();
        proof {
            assert(text::views(parts@) =~= text::views(before).drop_last());
            assert(text::views(before).last() == part@);
        }
        if part.len() == 0 || (part.len() == 1 && part[0] == '.') {
            assert(part@.len() == 1 ==> part@ =~= seq!['.']);
            continue;
        }
        if part.len() == 2 && part[0] == '.' && part[1] == '.' {
            assert(part@ =~= seq!['.', '.']);
            return None;
        }
        return Some(part);
    }
    None
}

/// The position of the last dot of a name.
pub fn last_dot_of(name: &[char]) -> (dot: Option<usize>)
    ensures
        match dot {
            Some(i) => last_dot(name@) == Some(i as int) && i < name.len(),
            None => last_dot(name@) is None,
        },
{
    let mut i: usize = name.len();
    assert(name@.take(i as int) =~= name@);
    while i > 0
        invariant
            i <= name.len(),
            last_dot(name@.take(i as int)) == last_dot(name@),
        decreases i,
    {
        assert(name@.take(i as int).drop_last() =~= name@.take(i - 1));
        if name[i - 1] == '.' {
            return Some(i - 1);
        }
        i -= 1;
    }
    None
}

/// The extension of a path's file name, in lower case.
pub fn lowercase_extension(path: &str) -> (result: Option<String>)
    ensures
        match result {
            Some(value) => extension(path@) is Some && value@ == text::lowercase(
                extension(path@)->0,
            ),
            None => extension(path@) is None,
        },
{
    match file_name_of(path) {
        Some(name) => match last_dot_of(&name) {
            Some(dot) => {
                if dot > 0 {
                    let rest = vstd::slice::slice_subrange(name.as_slice(), dot + 1, name.len());
                    assert(rest@ =~= name@.skip(dot + 1));
                    let plain = text::string_of(rest);
                    Some(text::to_lowercase(plain.as_str()))
                } else {
                    None
                }
            },
            None => None,
        },
        None => None,
    }
}

// ---- file names in bytes ----

/// Where the last part of a path starts.
pub open spec fn last_start(path: Seq<u8>) -> int
    decreases path.len(),
{
    if path.len() == 0 || path.last() == 0x2f {
        path.len() as int
    } else {
        last_start(path.drop_last())
    }
}

/// The last part of a path that names something, by the same rule as `file_name`.
pub open spec fn byte_name(path: Seq<u8>) -> Option<Seq<u8>>
    decreases path.len(),
{
    let start = last_start(path);
    let part = path.skip(start);
    if part.len() == 0 || part == seq![0x2eu8] {
        if 0 < start <= path.len() {
            byte_name(path.take(start - 1))
        } else {
            None
        }
    } else if part == seq![0x2eu8, 0x2eu8] {
        None
    } else {
        Some(part)
    }
}

fn last_start_of(path: &[u8], end: usize) -> (start: usize)
    requires
        end <= path.len(),
    ensures
        start == last_start(path@.take(end as int)),
        start <= end,
{
    let mut i: usize = end;
    while i > 0 && path[i - 1] != 0x2f
        invariant
            i <= end <= path.len(),
            last_start(path@.take(end as int)) == last_start(path@.take(i as int)),
        decreases i,
    {
        assert(path@.take(i as int).drop_last() =~= path@.take(i - 1));
        i -= 1;
    }
    i
}

/// The last part of a path that names something.
pub fn byte_name_of(path: &[u8]) -> (name: Option<Vec<u8>>)
    ensures
        match name {
            Some(value) => byte_name(path@) == Some(value@),
            None => byte_name(path@) is None,
        },
{
    let mut end: usize = path.len();
    assert(path@.take(end as int) =~= path@);
    loop
        invariant
            end <= path.len(),
            byte_name(path@.take(end as int)) == byte_name(path@),
        decreases end,
    {
        let start: usize = last_start_of(path, end);
        let part = vstd::slice::slice_subrange(path, start, end);
        assert(part@ =~= path@.take(end as int).skip(start as int));
        if part.len() == 0 || (part.len() == 1 && part[0] == 0x2e) {
            assert(part@.len() == 1 ==> part@ =~= seq![0x2eu8]);
            if start == 0 {
                return None;
            }
            assert(path@.take(end as int).take(start - 1) =~= path@.take(start - 1));
            end = start - 1;
        } else if part.len() == 2 && part[0] == 0x2e && part[1] == 0x2e {
            assert(part@ =~= seq![0x2eu8, 0x2eu8]);
            return None;
        } else {
            return Some(text::copy_bytes(part));
        }
    }
}

/// The position of the last dot in a name.
pub open spec fn last_dot_byte(name: Seq<u8>) -> Option<int>
    decreases name.len(),
{
    if name.len() == 0 {
        None
    } else if name.last() == 0x2e {
        Some(name.len() - 1)
    } else {
        last_dot_byte(name.drop_last())
    }
}

/// What follows the last dot of a path's file name; nothing where the only dot starts the name.
pub open spec fn byte_extension(path: Seq<u8>) -> Option<Seq<u8>> {
    match byte_name(path) {
        Some(name) => match last_dot_byte(name) {
            Some(dot) => if dot > 0 {
                Some(name.skip(dot + 1))
            } else {
                None
            },
            None => None,
        },
        None => None,
    }
}

/// What follows the last dot of a path's file name.
pub fn byte_extension_of(path: &[u8]) -> (result: Option<Vec<u8>>)
    ensures
        match result {
            Some(value) => byte_extension(path@) == Some(value@),
            None => byte_extension(path@) is None,
        },
{
    let name = match byte_name_of(path) {
        Some(name) => name,
        None => {
            return None;
        },
    };
    let mut i: usize = name.len();
    assert(name@.take(i as int) =~= name@);
    while i > 0
        invariant
            i <= name.len(),
            byte_name(path@) == Some(name@),
            last_dot_byte(name@.take(i as int)) == last_dot_byte(name@),
        decreases i,
    {
        assert(name@.take(i as int).drop_last() =~= name@.take(i - 1));
        if name[i - 1] == 0x2e {
            if i == 1 {
                return None;
            }
            let rest = vstd::slice::slice_subrange(name.as_slice(), i, name.len());
            assert(rest@ =~= name@.skip(i as int));
            return Some(text::copy_bytes(rest));
        }
        i -= 1;
    }
    None
}

} // verus!
