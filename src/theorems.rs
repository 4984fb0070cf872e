use vstd::prelude::*;
use crate::screen::sprite_covers;
use crate::spec::{
    alu_values, cycle_step, execute_step, fetch, first_pressed, op_kind, op_n, op_nn, op_x, op_y,
    well_formed, MachineView,
};

verus! {

/// The nibbles of a word assembled from four nibbles.
pub proof fn lemma_nibbles(k: int, x: int, y: int, n: int)
    requires
        0 <= k < 16,
        0 <= x < 16,
        0 <= y < 16,
        0 <= n < 16,
    ensures
        ({
            let op = (k * 0x1000 + x * 0x100 + y * 0x10 + n) as u16;
            &&& op as int == k * 0x1000 + x * 0x100 + y * 0x10 + n
            &&& op_kind(op) == k
            &&& op_x(op) == x
            &&& op_y(op) == y
            &&& op_n(op) == n
            &&& op as int % 0x100 == y * 0x10 + n
        }),
{
    let v = k * 0x1000 + x * 0x100 + y * 0x10 + n;
    assert(0 <= v < 0x10000) by (nonlinear_arith)
        requires
            v == k * 0x1000 + x * 0x100 + y * 0x10 + n,
            0 <= k < 16,
            0 <= x < 16,
            0 <= y < 16,
            0 <= n < 16,
    ;
    assert(v / 0x1000 == k && (v / 0x100) % 16 == x && (v / 0x10) % 16 == y && v % 16 == n && v
        % 0x100 == y * 0x10 + n) by (nonlinear_arith)
        requires
            v == k * 0x1000 + x * 0x100 + y * 0x10 + n,
            0 <= k < 16,
            0 <= x < 16,
            0 <= y < 16,
            0 <= n < 16,
    ;
}

/// 8XY4 adds VY to VX modulo 256 and sets VF to 1 exactly when the sum exceeds 255.
/// With X = F the flag overwrites the sum, so X ranges over V0 to VE.
pub proof fn lemma_add_with_carry(s: MachineView, x: int, y: int, rnd: u8)
    requires
        well_formed(s),
        0 <= x < 15,
        0 <= y < 16,
        s.opcode as int == 0x8004 + x * 0x100 + y * 0x10,
    ensures
        ({
            let (t, r) = execute_step(s, rnd);
            let sum = s.registers[x] + s.registers[y];
            &&& r is Ok
            &&& t.registers[x] == sum % 256
            &&& t.registers[15] == if sum > 255 { 1u8 } else { 0u8 }
            &&& forall|j: int| 0 <= j < 15 && j != x ==> t.registers[j] == s.registers[j]
        }),
{
    lemma_nibbles(8, x, y, 4);
}

/// Drawing the same sprite twice at the same place restores the display, and the second
/// draw reports a collision exactly when the first lit some pixel. The coordinates are
/// read from registers other than VF, which the first draw overwrites.
pub proof fn lemma_draw_twice(s: MachineView, rnd: u8)
    requires
        well_formed(s),
        op_kind(s.opcode) == 0xD,
        op_x(s.opcode) != 15,
        op_y(s.opcode) != 15,
        s.index + op_n(s.opcode) <= 4096,
    ensures
        ({
            let (t, r1) = execute_step(s, rnd);
            let (u, r2) = execute_step(t, rnd);
            let sprite = s.memory.subrange(s.index as int, s.index + op_n(s.opcode));
            let vx = s.registers[op_x(s.opcode)] as int;
            let vy = s.registers[op_y(s.opcode)] as int;
            &&& r1 is Ok
            &&& r2 is Ok
            &&& u.pixels =~= s.pixels
            &&& (u.registers[15] == 1) == exists|p: int|
                0 <= p < 2048 && #[trigger] sprite_covers(sprite, vx, vy, p) && !s.pixels[p]
        }),
{
    let (t, r1) = execute_step(s, rnd);
    let sprite = s.memory.subrange(s.index as int, s.index + op_n(s.opcode));
    let vx = s.registers[op_x(s.opcode)] as int;
    let vy = s.registers[op_y(s.opcode)] as int;
    assert(t.registers[op_x(s.opcode)] == s.registers[op_x(s.opcode)]);
    assert(t.registers[op_y(s.opcode)] == s.registers[op_y(s.opcode)]);
    assert forall|p: int| 0 <= p < 2048 && #[trigger] sprite_covers(sprite, vx, vy, p) implies t.pixels[p]
        == !s.pixels[p] by {}
}

/// 00E0 turns every pixel off.
pub proof fn lemma_clear(s: MachineView, rnd: u8)
    requires
        well_formed(s),
        s.opcode == 0x00E0,
    ensures
        execute_step(s, rnd).1 is Ok,
        forall|p: int| 0 <= p < 2048 ==> !#[trigger] execute_step(s, rnd).0.pixels[p],
        execute_step(s, rnd).0.pixels.len() == 2048,
{
}

/// FX55 followed by FX65 with the same X and I gives back V0 to VX, whatever the
/// registers held in between. Both need I + X to lie within memory.
pub proof fn lemma_store_load(s: MachineView, x: int, between: Seq<u8>, rnd: u8)
    requires
        well_formed(s),
        0 <= x < 16,
        s.opcode as int == 0xF055 + x * 0x100,
        s.index + x + 1 <= 4096,
        between.len() == 16,
    ensures
        ({
            let (t, r1) = execute_step(s, rnd);
            let load = MachineView { opcode: (0xF065 + x * 0x100) as u16, registers: between, ..t };
            let (u, r2) = execute_step(load, rnd);
            &&& r1 is Ok
            &&& r2 is Ok
            &&& forall|j: int| 0 <= j <= x ==> u.registers[j] == s.registers[j]
        }),
{
    lemma_nibbles(0xF, x, 5, 5);
    lemma_nibbles(0xF, x, 6, 5);
}

/// 3XNN, 4XNN, 5XY0 and 9XY0 move PC on by four over one cycle when their condition
/// holds, and by two when it does not.
pub proof fn lemma_skip(s: MachineView, rnd: u8)
    requires
        well_formed(s),
        s.pc + 1 < 4096,
        ({
            let op = fetch(s);
            let k = op_kind(op);
            k == 3 || k == 4 || ((k == 5 || k == 9) && op_n(op) == 0)
        }),
    ensures
        ({
            let op = fetch(s);
            let k = op_kind(op);
            let vx = s.registers[op_x(op)];
            let vy = s.registers[op_y(op)];
            let holds = if k == 3 {
                vx == op_nn(op)
            } else if k == 4 {
                vx != op_nn(op)
            } else if k == 5 {
                vx == vy
            } else {
                vx != vy
            };
            let (t, r) = cycle_step(s, rnd);
            &&& r is Ok
            &&& t.pc == if holds { s.pc + 4 } else { s.pc + 2 }
        }),
{
}

/// What `first_pressed` finds: the lowest pressed key at or above `i`, or none when no
/// key there is pressed.
pub proof fn lemma_first_pressed(keys: Seq<bool>, i: int)
    requires
        keys.len() == 16,
        0 <= i <= 16,
    ensures
        match first_pressed(keys, i) {
            Some(k) => i <= k < 16 && keys[k as int] && forall|j: int| i <= j < k ==> !keys[j],
            None => forall|j: int| i <= j < 16 ==> !keys[j],
        },
    decreases 16 - i,
{
    if i < 16 {
        lemma_first_pressed(keys, i + 1);
    }
}

/// FX0A with no key pressed leaves PC where it was, over one cycle and over two.
pub proof fn lemma_key_wait_holds(s: MachineView, rnd1: u8, rnd2: u8)
    requires
        well_formed(s),
        s.pc + 1 < 4096,
        op_kind(fetch(s)) == 0xF,
        fetch(s) as int % 0x100 == 0x0A,
        forall|j: int| 0 <= j < 16 ==> !s.keypad[j],
    ensures
        ({
            let (t, r1) = cycle_step(s, rnd1);
            let (u, r2) = cycle_step(t, rnd2);
            &&& r1 is Ok
            &&& r2 is Ok
            &&& t.pc == s.pc
            &&& u.pc == s.pc
        }),
{
    lemma_first_pressed(s.keypad, 0);
    let (t, r1) = cycle_step(s, rnd1);
    assert(fetch(t) == fetch(s));
}

/// FX0A with some key pressed puts the lowest pressed key in VX and moves PC on by two.
pub proof fn lemma_key_wait_done(s: MachineView, rnd: u8)
    requires
        well_formed(s),
        s.pc + 1 < 4096,
        op_kind(fetch(s)) == 0xF,
        fetch(s) as int % 0x100 == 0x0A,
        exists|j: int| 0 <= j < 16 && s.keypad[j],
    ensures
        ({
            let (t, r) = cycle_step(s, rnd);
            let v = t.registers[op_x(fetch(s))];
            &&& r is Ok
            &&& t.pc == s.pc + 2
            &&& v < 16
            &&& s.keypad[v as int]
            &&& forall|j: int| 0 <= j < v ==> !s.keypad[j]
        }),
{
    lemma_first_pressed(s.keypad, 0);
}

/// With the shift quirk, 8XY6 and 8XYE shift VY into VX; without it they shift VX in
/// place. When VX and VY differ the two give different VX and VF (X other than F).
#[verifier::rlimit(60)]
pub proof fn lemma_shift_quirk(s: MachineView, x: int, y: int, left: bool, rnd: u8)
    requires
        well_formed(s),
        0 <= x < 15,
        0 <= y < 16,
        s.opcode as int == 0x8000 + x * 0x100 + y * 0x10 + if left { 0xEint } else { 6int },
    ensures
        ({
            let (on, r_on) = execute_step(MachineView { shift_quirk: true, ..s }, rnd);
            let (off, r_off) = execute_step(MachineView { shift_quirk: false, ..s }, rnd);
            let vx = s.registers[x];
            let vy = s.registers[y];
            &&& r_on is Ok
            &&& r_off is Ok
            &&& !left ==> on.registers[x] == vy / 2 && on.registers[15] == vy % 2
                && off.registers[x] == vx / 2 && off.registers[15] == vx % 2
            &&& left ==> on.registers[x] == (vy * 2) % 256 && on.registers[15] == vy / 128
                && off.registers[x] == (vx * 2) % 256 && off.registers[15] == vx / 128
            &&& vx != vy ==> (on.registers[x] != off.registers[x] || on.registers[15]
                != off.registers[15])
        }),
{
    let n = if left { 0xEint } else { 6int };
    lemma_nibbles(8, x, y, n);
    let vx = s.registers[x];
    let vy = s.registers[y];
    assert(alu_values(s.opcode, vx, vy, true) == if left {
        Some((((vy * 2) % 256) as u8, Some((vy / 128) as u8)))
    } else {
        Some(((vy / 2) as u8, Some((vy % 2) as u8)))
    });
    assert(alu_values(s.opcode, vx, vy, false) == if left {
        Some((((vx * 2) % 256) as u8, Some((vx / 128) as u8)))
    } else {
        Some(((vx / 2) as u8, Some((vx % 2) as u8)))
    });
    if vx != vy {
        let a = vx as int;
        let b = vy as int;
        if left {
            assert((a * 2) % 256 != (b * 2) % 256 || a / 128 != b / 128) by (nonlinear_arith)
                requires
                    0 <= a < 256,
                    0 <= b < 256,
                    a != b,
            ;
        } else {
            assert(a / 2 != b / 2 || a % 2 != b % 2) by (nonlinear_arith)
                requires
                    0 <= a < 256,
                    0 <= b < 256,
                    a != b,
            ;
        }
    }
}

} // verus!
