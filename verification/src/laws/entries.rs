//! What the description of a file tells.

use crate::entry::{described, permission_letters, writable_time};
use crate::host::{MetadataView, ModifiedOf};
use crate::outside::rfc3339_text;
use crate::path::file_name;
use crate::text::{law_decimal_reads_back, unsigned_value};
use vstd::prelude::*;
use vstd::utf8::*;

verus! {

/// A description tells whether its file is a directory: in its type, and in the first letter of the
/// permissions.
pub proof fn law_description_tells_directories(
    path: Seq<u8>,
    metadata: MetadataView,
    owner: Option<Seq<char>>,
    group: Option<Seq<char>>,
)
    ensures
        ({
            let entry = described(path, metadata, owner, group);
            &&& entry.file_type == "FILE_TYPE_DIRECTORY"@ <==> metadata.is_dir
            &&& entry.file_type == "FILE_TYPE_FILE"@ <==> !metadata.is_dir
            &&& entry.permissions[0] == 'd' <==> metadata.is_dir
            &&& entry.permissions[0] == '-' <==> !metadata.is_dir
        }),
{
    reveal_strlit("FILE_TYPE_DIRECTORY");
    reveal_strlit("FILE_TYPE_FILE");
    assert("FILE_TYPE_DIRECTORY"@.len() != "FILE_TYPE_FILE"@.len());
}

/// A description is of its path: a path that is UTF-8 is told as it is, and so is the name at its end. A
/// path without a name, such as the root, is called `/`.
pub proof fn law_description_tells_the_path(
    path: Seq<u8>,
    metadata: MetadataView,
    owner: Option<Seq<char>>,
    group: Option<Seq<char>>,
)
    ensures
        ({
            let entry = described(path, metadata, owner, group);
            &&& valid_utf8(path) ==> encode_utf8(entry.path) == path
            &&& file_name(path) matches Some(name) ==> valid_utf8(name) ==> encode_utf8(entry.name) == name
            &&& file_name(path) matches Some(name) ==> !valid_utf8(name) ==> entry.name == "/"@
            &&& file_name(path) is None ==> entry.name == "/"@
        }),
{
    broadcast use decode_utf8_encode_utf8;

}

/// A description tells the size of its file in digits, the permission bits and no other bits of the mode,
/// and when the file was last modified; for an unknown time the Unix epoch stands.
pub proof fn law_description_tells_size_and_mode(
    path: Seq<u8>,
    metadata: MetadataView,
    owner: Option<Seq<char>>,
    group: Option<Seq<char>>,
)
    ensures
        ({
            let entry = described(path, metadata, owner, group);
            &&& unsigned_value(encode_utf8(entry.size)) == Some(metadata.size as nat)
            &&& entry.mode == metadata.mode as int % 4096
            &&& metadata.modified matches ModifiedOf::At { seconds, nanoseconds } ==> entry.modified_time
                == rfc3339_text(seconds, nanoseconds)
            &&& metadata.modified is Unknown ==> entry.modified_time == rfc3339_text(0, 0)
        }),
{
    let mode = metadata.mode;
    law_decimal_reads_back(metadata.size);
    assert(mode & 0o7777 == mode % 4096) by (bit_vector);
}

/// A description calls the owner and the group of its file by their names, and by their numbers in digits
/// where they have none; neither stands for the other.
pub proof fn law_description_tells_owner_and_group(
    path: Seq<u8>,
    metadata: MetadataView,
    owner: Option<Seq<char>>,
    group: Option<Seq<char>>,
)
    ensures
        ({
            let entry = described(path, metadata, owner, group);
            &&& owner matches Some(name) ==> entry.owner == name
            &&& owner is None ==> unsigned_value(encode_utf8(entry.owner)) == Some(metadata.uid as nat)
            &&& group matches Some(name) ==> entry.group == name
            &&& group is None ==> unsigned_value(encode_utf8(entry.group)) == Some(metadata.gid as nat)
        }),
{
    law_decimal_reads_back(metadata.uid as u64);
    law_decimal_reads_back(metadata.gid as u64);
}

/// The letters of three permissions, at places behind each other, tell the three bits that weigh 4, 2 and 1
/// times the weight of the class, and the special bit of the class.
pub open spec fn class_told(letters: Seq<char>, first: int, mode: u32, weight: u32, special: u32, mark: (char, char)) -> bool {
    &&& letters[first] == 'r' <==> mode & ((4 * weight) as u32) != 0
    &&& letters[first] == '-' <==> mode & ((4 * weight) as u32) == 0
    &&& letters[first + 1] == 'w' <==> mode & ((2 * weight) as u32) != 0
    &&& letters[first + 1] == '-' <==> mode & ((2 * weight) as u32) == 0
    &&& letters[first + 2] == 'x' <==> mode & weight != 0 && mode & special == 0
    &&& letters[first + 2] == mark.0 <==> mode & weight != 0 && mode & special != 0
    &&& letters[first + 2] == mark.1 <==> mode & weight == 0 && mode & special != 0
    &&& letters[first + 2] == '-' <==> mode & weight == 0 && mode & special == 0
}

/// The letters of the permissions are ten: whether it is a directory, then three for the owner, three for
/// the group and three for everyone else.
pub proof fn law_letters_tell_the_bits(is_dir: bool, mode: u32)
    ensures
        ({
            let letters = permission_letters(is_dir, mode);
            &&& letters.len() == 10
            &&& letters[0] == if is_dir { 'd' } else { '-' }
            &&& class_told(letters, 1, mode, 64, 2048, ('s', 'S'))
            &&& class_told(letters, 4, mode, 8, 1024, ('s', 'S'))
            &&& class_told(letters, 7, mode, 1, 512, ('t', 'T'))
        }),
{
}

/// The permissions in letters are those of the file.
pub proof fn law_description_tells_permissions(
    path: Seq<u8>,
    metadata: MetadataView,
    owner: Option<Seq<char>>,
    group: Option<Seq<char>>,
)
    ensures
        ({
            let letters = described(path, metadata, owner, group).permissions;
            &&& letters.len() == 10
            &&& class_told(letters, 1, metadata.mode, 64, 2048, ('s', 'S'))
            &&& class_told(letters, 4, metadata.mode, 8, 1024, ('s', 'S'))
            &&& class_told(letters, 7, metadata.mode, 1, 512, ('t', 'T'))
        }),
{
    let mode = metadata.mode;
    law_letters_tell_the_bits(metadata.is_dir, mode & 0o7777);
    assert forall|bit: u32| bit & 0o7777 == bit implies #[trigger] (mode & 0o7777 & bit) == mode & bit by {
        assert(bit & 0o7777 == bit ==> mode & 0o7777 & bit == mode & bit) by (bit_vector);
    }
    assert(256u32 & 0o7777 == 256 && 128u32 & 0o7777 == 128 && 64u32 & 0o7777 == 64 && 32u32 & 0o7777 == 32
        && 16u32 & 0o7777 == 16 && 8u32 & 0o7777 == 8 && 4u32 & 0o7777 == 4 && 2u32 & 0o7777 == 2 && 1u32 & 0o7777
        == 1 && 2048u32 & 0o7777 == 2048 && 1024u32 & 0o7777 == 1024 && 512u32 & 0o7777 == 512) by (bit_vector);
}

/// Every time that the calendar holds can be written, and so can an unknown one.
pub proof fn law_times_of_the_calendar_are_writable(seconds: u64, nanoseconds: u32, message: Seq<char>)
    ensures
        writable_time(ModifiedOf::At { seconds, nanoseconds }) <==> seconds <= 8210266876799 && nanoseconds
            < 1000000000,
        writable_time(ModifiedOf::Unknown(message)),
{
}

} // verus!
