//! Mount resolver: rebuilds the device-name → mount-point mapping from the
//! text of the OS mount table.  Only devices under the physical-device
//! namespace (`/dev/`) are considered; a malformed line contributes nothing
//! and parsing continues with the next line.

use vstd::prelude::*;
use crate::kvmap::KvMap;
use crate::strutil::str_eq;
use crate::textparse::{tokens, ws_class, nl_class, split_fields, split_lines, views_of};

verus! {

/// The characters of the physical-device namespace prefix `/dev/`.
pub open spec fn dev_prefix() -> Seq<char> {
    seq!['/', 'd', 'e', 'v', '/']
}

/// The binding a single mount-table line contributes: the device name with
/// its namespace prefix stripped, and the mount point.  A line with fewer
/// than two fields, or a device outside the physical namespace, contributes
/// nothing.
pub open spec fn mount_line_spec(line: Seq<char>) -> Option<(Seq<char>, Seq<char>)> {
    let ts = tokens(line, ws_class());
    if ts.len() >= 2 && ts[0].len() >= 5 && ts[0].take(5) == dev_prefix() {
        Some((ts[0].skip(5), ts[1]))
    } else {
        None
    }
}

/// The device → mount-point map a whole mount table denotes; a later line
/// wins for a device that occurs more than once.
pub open spec fn mount_map_spec(lines: Seq<Seq<char>>) -> Map<Seq<char>, Seq<char>>
    decreases lines.len(),
{
    if lines.len() == 0 {
        Map::empty()
    } else {
        let m = mount_map_spec(lines.drop_last());
        match mount_line_spec(lines.last()) {
            Some(kv) => m.insert(kv.0, kv.1),
            None => m,
        }
    }
}

/// Parses one mount-table line into its device-name → mount-point binding.
pub fn parse_mount_line(line: &str) -> (r: Option<(String, String)>)
    ensures
        match r {
            Some(kv) => mount_line_spec(line@) == Some((kv.0@, kv.1@)),
            None => mount_line_spec(line@) is None,
        },
{
    let fields = split_fields(line);
    let ghost ts = tokens(line@, ws_class());
    if fields.len() < 2 {
        return None;
    }
    proof {
        assert(views_of(fields@)[0] == fields@[0]@);
        assert(views_of(fields@)[1] == fields@[1]@);
    }
    let dev_len = fields[0].as_str().unicode_len();
    if dev_len < 5 {
        return None;
    }
    let head = fields[0].as_str().substring_char(0, 5);
    proof {
        reveal_strlit("/dev/");
        assert("/dev/"@ =~= dev_prefix());
        assert(head@ =~= ts[0].take(5));
    }
    if !str_eq(head, "/dev/") {
        return None;
    }
    let name = fields[0].as_str().substring_char(5, dev_len).to_owned();
    let mount_point = fields[1].clone();
    proof {
        assert(name@ =~= ts[0].skip(5));
    }
    Some((name, mount_point))
}

/// Rebuilds the device → mount-point mapping from the mount table's text.
pub fn parse_device_mount_mapping(text: &str) -> (r: KvMap<String>)
    ensures
        r.wf(),
        r@ == mount_map_spec(tokens(text@, nl_class())),
{
    let lines = split_lines(text);
    let ghost lviews = tokens(text@, nl_class());
    let n = lines.len();
    let mut map = KvMap::<String>::new();
    let mut i: usize = 0;
    proof {
        assert(lviews.take(0) =~= Seq::<Seq<char>>::empty());
        assert(map@ =~= mount_map_spec(lviews.take(0)));
    }
    while i < n
        invariant
            n == lines@.len(),
            i <= n,
            views_of(lines@) == lviews,
            map.wf(),
            map@ == mount_map_spec(lviews.take(i as int)),
        decreases n - i,
    {
        proof {
            assert(views_of(lines@)[i as int] == lines@[i as int]@);
        }
        match parse_mount_line(lines[i].as_str()) {
            Some(kv) => {
                map.insert(kv.0, kv.1);
            },
            None => {},
        }
        proof {
            let t1 = lviews.take(i + 1);
            assert(t1.drop_last() =~= lviews.take(i as int));
            assert(t1.last() == lviews[i as int]);
        }
        i += 1;
    }
    proof {
        assert(lviews.take(n as int) =~= lviews);
    }
    map
}

} // verus!
