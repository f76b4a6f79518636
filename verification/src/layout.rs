//! A vertical-split layout helper: gives every client an equal column of
//! the monitor, inside the configured gaps. Not wired into the dispatch
//! loop; kept as an optional helper.

use vstd::prelude::*;

use crate::ordmap::{
    ckey_index, ckeys_unique, client_entries, cmap_insert, cmap_items, cmap_new, has_ckey,
    ClientMap,
};
use crate::state::Client;
use crate::vector::Vector2D;

verus! {

pub struct VerticalSplitLayout {
    pub monitor_size: Vector2D,
    pub top_gap: i32,
    pub bottom_gap: i32,
    pub left_gap: i32,
    pub right_gap: i32,
    pub window_gap: i32,
}

impl VerticalSplitLayout {
    /// True when the gaps and monitor are sane: everything non-negative,
    /// within sixteen bits, and the gaps leave room on the monitor for `n`
    /// columns.
    pub open spec fn fits(&self, n: int) -> bool {
        &&& 1 <= n <= 0xfff
        &&& 0 <= self.top_gap <= 0xfff
        &&& 0 <= self.bottom_gap <= 0xfff
        &&& 0 <= self.left_gap <= 0xfff
        &&& 0 <= self.right_gap <= 0xfff
        &&& 0 <= self.window_gap <= 0xfff
        &&& 0 <= self.monitor_size.x <= 0xffff
        &&& 0 <= self.monitor_size.y <= 0xffff
        &&& self.left_gap + self.right_gap + self.window_gap * (n - 1) <= self.monitor_size.x
        &&& self.top_gap + self.bottom_gap <= self.monitor_size.y
    }

    /// The column width every client receives.
    pub open spec fn column_width(&self, n: int) -> int {
        (self.monitor_size.x - self.right_gap - self.left_gap - self.window_gap * (n - 1)) / n
    }

    /// The column height every client receives.
    pub open spec fn column_height(&self) -> int {
        self.monitor_size.y - self.top_gap - self.bottom_gap
    }

    /// Where the client in column `idx` is placed.
    pub open spec fn column_pos(&self, n: int, idx: int) -> int {
        self.left_gap + self.column_width(n) * idx + idx * self.window_gap
    }

    /// Size and place every client: equal columns left to right, in the
    /// clients' insertion order.
    pub fn apply_layout(self, clients: &mut ClientMap)
        requires
            ckeys_unique(client_entries(*old(clients))),
            self.fits(client_entries(*old(clients)).len() as int),
        ensures
            ({
                let s = client_entries(*old(clients));
                let t = client_entries(*final(clients));
                let n = s.len() as int;
                &&& t.len() == s.len()
                &&& forall|i: int|
                    0 <= i < s.len() ==> #[trigger] t[i] == (
                        s[i].0,
                        (Client {
                            window: s[i].1.window,
                            pos: (Vector2D {
                                x: self.column_pos(n, i) as i32,
                                y: self.top_gap,
                            }),
                            size: (Vector2D {
                                x: self.column_width(n) as i32,
                                y: self.column_height() as i32,
                            }),
                        }),
                    )
            }),
    {
        let items = cmap_items(clients);
        let ghost s = client_entries(*old(clients));
        let n = items.len();
        let ghost ni = n as int;
        let x: i64 = (self.monitor_size.x as i64) - (self.right_gap as i64) - (self.left_gap
            as i64) - (self.window_gap as i64) * ((n as i64) - 1);
        let y: i64 = (self.monitor_size.y as i64) - (self.top_gap as i64) - (self.bottom_gap
            as i64);
        proof {
            assert(0 <= self.window_gap * (ni - 1) <= 0xfff * 0xfff) by (nonlinear_arith)
                requires
                    0 <= self.window_gap <= 0xfff,
                    1 <= ni <= 0xfff,
            ;
            assert(x == self.monitor_size.x - self.right_gap - self.left_gap - self.window_gap
                * (ni - 1));
            assert(0 <= x <= 0xffff);
            vstd::arithmetic::div_mod::lemma_div_basics_4(x as int, ni);
            vstd::arithmetic::div_mod::lemma_div_basics_5(x as int, ni);
        }
        let w: i64 = x / (n as i64);
        proof {
            assert(w == self.column_width(ni));
            assert(0 <= w <= 0xffff);
        }
        let mut rebuilt: ClientMap = cmap_new();
        let mut idx: usize = 0;
        while idx < items.len()
            invariant
                items@ == s,
                ckeys_unique(s),
                idx <= s.len(),
                ni == s.len() as int,
                0 <= w <= 0xffff,
                w == self.column_width(ni),
                y == self.column_height(),
                self.fits(ni),
                ckeys_unique(client_entries(rebuilt)),
                client_entries(rebuilt).len() == idx,
                forall|i: int|
                    0 <= i < idx ==> #[trigger] client_entries(rebuilt)[i] == (
                        s[i].0,
                        (Client {
                            window: s[i].1.window,
                            pos: (Vector2D {
                                x: self.column_pos(ni, i) as i32,
                                y: self.top_gap,
                            }),
                            size: (Vector2D { x: w as i32, y: y as i32 }),
                        }),
                    ),
            decreases items@.len() - idx,
        {
            let item = items[idx];
            proof {
                assert(0 <= w * (idx as int) <= 0xffff * 0xfff) by (nonlinear_arith)
                    requires
                        0 <= w <= 0xffff,
                        0 <= idx < 0xfff,
                ;
                assert(0 <= (idx as int) * self.window_gap <= 0xfff * 0xfff) by (
                nonlinear_arith)
                    requires
                        0 <= self.window_gap <= 0xfff,
                        0 <= idx < 0xfff,
                ;
            }
            let c = Client {
                window: item.1.window,
                pos: Vector2D::new(self.left_gap + (w as i32) * (idx as i32) + (idx as i32)
                    * self.window_gap, self.top_gap),
                size: Vector2D::new(w as i32, y as i32),
            };
            let ghost pre = client_entries(rebuilt);
            proof {
                if has_ckey(pre, item.0) {
                    let q = ckey_index(pre, item.0);
                    assert(client_entries(rebuilt)[q].0 == s[q].0);
                    assert(s[q].0 == s[idx as int].0);
                    assert(false);
                }
            }
            cmap_insert(&mut rebuilt, item.0, c);
            idx = idx + 1;
            proof {
                assert forall|i: int| 0 <= i < idx implies #[trigger] client_entries(rebuilt)[i]
                    == (
                    s[i].0,
                    (Client {
                        window: s[i].1.window,
                        pos: (Vector2D { x: self.column_pos(ni, i) as i32, y: self.top_gap }),
                        size: (Vector2D { x: w as i32, y: y as i32 }),
                    }),
                ) by {
                    if i < idx - 1 {
                        assert(client_entries(rebuilt)[i] == pre[i]);
                    }
                }
                assert forall|a: int, q: int|
                    0 <= a < q < client_entries(rebuilt).len() implies client_entries(
                    rebuilt,
                )[a].0 != client_entries(rebuilt)[q].0 by {
                    assert(client_entries(rebuilt)[a].0 == s[a].0);
                    assert(client_entries(rebuilt)[q].0 == s[q].0);
                }
            }
        }
        *clients = rebuilt;
    }
}

} // verus!
