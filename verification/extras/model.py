"""Executable model of the Lustro engine, absorption and streams.

Used to produce the expected values in the test suite independently of the
Rust code. Run `python3 model.py` to print them.
"""

M128 = (1 << 128) - 1
M64 = (1 << 64) - 1
IV_S0 = 0x9E3779B97F4A7C159E3779B97F4A7C15
IV_S1 = 0x6C62272E07BB01426C62272E07BB0142
STREAM_INIT_MASK = 0xC0AC29B7C97C50DDC0AC29B7C97C50DD
ERD_MUL = 0x9E3779B97F4A7C15F39CC0605CEDC835
ERD_WEYL = 0xD1B54A32D192ED03AEF4D2B4A7F2B7D1
HASH, PRNG, XOF = 1, 2, 3


def rotl(x, k):
    return ((x << k) | (x >> (128 - k))) & M128


def idm(s0, s1):
    a = s0 ^ rotl(s1, 23)
    b = (s1 + a) & M128
    a2 = a ^ rotl(b, 67)
    b2 = b ^ (a2 >> 41)
    return a2, b2


def erd(s0, s1, step):
    w = (ERD_WEYL * (step + 1)) & M128
    x0 = (s0 + w) & M128
    x1 = s1 ^ ((x0 * ERD_MUL) & M128)
    y0 = x0 ^ rotl(x1, 89)
    y1 = (x1 + rotl(y0, 37)) & M128
    return y0, y1


def stream_step(s0, s1, step):
    return erd(*idm(s0, s1), step)


def evaluate(s0, s1):
    return stream_step(s0, s1, 0)


def le(x, n):
    return x.to_bytes(n, "little")


def from_le(b):
    return int.from_bytes(b, "little")


def absorb(data, domain):
    len64 = (len(data) * 8) & M64
    rot = ((len64 << 17) | (len64 >> 47)) & M64
    s0 = IV_S0 ^ domain
    s1 = IV_S1 ^ ((rot << 64) | len64)
    n = len(data) // 32
    for i in range(n):
        blk = data[32 * i:32 * i + 32]
        s0, s1 = evaluate(s0 ^ from_le(blk[:16]), s1 ^ from_le(blk[16:]))
    if len(data) % 32 == 0 and len(data) > 0:
        return s0, s1
    rem = data[32 * n:]
    buf = rem + b"\x80" + bytes(31 - len(rem))
    b0, b1 = from_le(buf[:16]), from_le(buf[16:])
    t1 = s1 ^ b1
    if len(rem) < 16:
        t1 ^= b0
    return evaluate(s0 ^ b0, t1)


def hash256(data):
    s0, s1 = absorb(data, HASH)
    return le(s0, 16) + le(s1, 16)


def hash128(data):
    return le(absorb(data, HASH)[0], 16)


def fork_lane(s0, s1, domain, ident):
    return evaluate(s0 ^ domain, (s1 ^ STREAM_INIT_MASK) ^ ident)


class Stream:
    def __init__(self, s0, s1):
        self.s0, self.s1, self.step, self.cursor = s0, s1, 0, 32

    def block(self):
        return le(self.s0, 16) + le(self.s1, 16)

    def refill(self):
        self.s0, self.s1 = stream_step(self.s0, self.s1, self.step)
        self.step = (self.step + 1) & M64
        self.cursor = 0

    def fill(self, n):
        out = b""
        if 0 < self.cursor < 32 and n > 0:
            chunk = min(32 - self.cursor, n)
            out += self.block()[self.cursor:self.cursor + chunk]
            self.cursor += chunk
        ran = False
        while n - len(out) >= 32:
            ran = True
            self.refill()
            out += self.block()
        if ran:
            self.cursor = 32
        if len(out) < n:
            self.refill()
            chunk = n - len(out)
            out += self.block()[:chunk]
            self.cursor = chunk
        return out

    def next_block(self):
        self.refill()
        self.cursor = 32
        return self.block()


def xof(message):
    return Stream(*absorb(message, XOF))


def prng(seed, ident):
    s0, s1 = from_le(seed[:16]), from_le(seed[16:])
    return Stream(*fork_lane(s0, s1, PRNG, ident))


if __name__ == "__main__":
    print("hash256(hello world)", hash256(b"hello world").hex())
    print("hash128(hello world)", hash128(b"hello world").hex())
    print("hash256(empty)", hash256(b"").hex())
    print("hash256(32 x 0xab)", hash256(bytes([0xAB]) * 32).hex())
    print("hash256(33 x 0xab)", hash256(bytes([0xAB]) * 33).hex())
    print("hash256(20 x 0x01)", hash256(bytes([1]) * 20).hex())
    x = xof(b"hello world")
    print("xof(hello world).next_block", x.next_block().hex())
    x = xof(b"hello world")
    print("xof(hello world).fill(40)", x.fill(40).hex())
    p = prng(bytes(32), 0)
    print("prng(0,0).next_u64", hex(from_le(p.fill(8))))
    p = prng(bytes(range(32)), 7)
    print("prng(0..32,7).next_u128", hex(from_le(p.fill(16))))
    p = prng(bytes(32), 0)
    c = Stream(*fork_lane(p.s0, p.s1, PRNG, 42))
    print("prng(0,0).fork(42).next_block", c.next_block().hex())
