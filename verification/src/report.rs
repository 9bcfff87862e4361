//! Text helpers for the compile report the command-line tool prints.
use crate::text::{dec_digits, push_dec};
use vstd::prelude::*;
use vstd::string::*;
use vstd::utf8::is_char_boundary;

verus! {

/// A memory size in KB, shown in whole MB from 1024 KB up.
pub open spec fn memory_size_text(total_kb: nat) -> Seq<char> {
    if total_kb >= 1024 {
        dec_digits(total_kb / 1024) + " MB"@
    } else {
        dec_digits(total_kb) + " KB"@
    }
}

/// The size of `pages` pages of `page_size_kb` KB each, in KB or whole MB.
pub fn format_memory_size(pages: u32, page_size_kb: u32) -> (r: String)
    ensures
        r@ == memory_size_text(pages as nat * page_size_kb as nat),
{
    proof {
        assert(pages as nat * page_size_kb as nat <= 0xFFFF_FFFFnat * 0xFFFF_FFFFnat) by (nonlinear_arith)
            requires
                pages <= 0xFFFF_FFFFnat,
                page_size_kb <= 0xFFFF_FFFFnat,
        ;
    }
    let total_kb: u64 = (pages as u64) * (page_size_kb as u64);
    proof {
        assert(total_kb == pages as nat * page_size_kb as nat) by (nonlinear_arith)
            requires
                total_kb == (pages as u64) * (page_size_kb as u64),
        ;
    }
    let mut s = String::new();
    if total_kb >= 1024 {
        push_dec(&mut s, total_kb / 1024);
        s.append(" MB");
    } else {
        push_dec(&mut s, total_kb);
        s.append(" KB");
    }
    s
}

/// `s` cut to at most `max` bytes. The cut must fall on a character
/// boundary when `s` is longer.
pub fn truncate(s: &str, max: usize) -> (r: &str)
    requires
        s.spec_bytes().len() <= usize::MAX,
        s.spec_bytes().len() <= max || is_char_boundary(s.spec_bytes(), max as int),
    ensures
        r.spec_bytes() == if s.spec_bytes().len() <= max {
            s.spec_bytes()
        } else {
            s.spec_bytes().subrange(0, max as int)
        },
{
    if s.len() <= max {
        s
    } else {
        s.split_at(max).0
    }
}

} // verus!
