//! The fixed C runtime that every emitted program starts with: cell and string
//! layout, allocator and live counter, dup/drop/reuse, the containers, structural
//! equality and the print helpers. The per-tag release of fields is emitted for
//! each program; the runtime declares it.

use vstd::prelude::*;
use vstd::string::*;

verus! {

/// Live counters, traps, cells, strings and their reference counts.
pub const RUNTIME_CELLS: &'static str = r#"#include <stdint.h>
#include <stdio.h>
#include <stdlib.h>
#include <string.h>
#include <math.h>

/* ---- live-cell accounting (the native analogue of wasm __live) ---- */
static int64_t aria_live = 0;
static int64_t aria_reuses = 0;

/* ---- ADT cell: { int64_t rc; int64_t tag; int64_t fields[]; } ---- */
typedef struct { int64_t rc; int64_t tag; int64_t fields[]; } AriaCell;

static void aria_trap_msg(const char* msg) {
    /* A defined Aria runtime error. Print a descriptive message to stderr in the
       same `runtime error: ...` form the interpreter uses, then abort with a
       non-zero status (which runners detect as a trap, independent of output). */
    fflush(stdout);
    fprintf(stderr, "runtime error: %s\n", msg);
    fflush(stderr);
    exit(70);
}
/* Generic trap with no specific context (allocation failure, internal invariant). */
static void aria_trap(void) { aria_trap_msg("aborted"); }

static void* aria_alloc(int64_t nfields) {
    AriaCell* c = (AriaCell*)malloc(sizeof(AriaCell) + (size_t)nfields * sizeof(int64_t));
    if (!c) aria_trap();
    c->rc = 1;
    c->tag = 0;
    aria_live++;
    return (void*)c;
}

/* Reuse a retained slot (from aria_drop_reuse): rc=1, count the reuse. The slot
   was kept (not freed), so aria_live is unchanged. */
static void* aria_reuse(void* p) {
    AriaCell* c = (AriaCell*)p;
    c->rc = 1;
    aria_reuses++;
    return p;
}

#define aria_field(p, i)  (((AriaCell*)(p))->fields[(i)])
static inline void aria_set_tag(void* p, int64_t t) { ((AriaCell*)(p))->tag = t; }
static inline int64_t aria_tag(void* p) { return ((AriaCell*)(p))->tag; }

/* Float <-> int64 bit reinterpret for storing Float fields in a 64-bit slot. */
static inline int64_t aria_f2i(double d) { int64_t i; memcpy(&i, &d, 8); return i; }
static inline double aria_i2f(int64_t i) { double d; memcpy(&d, &i, 8); return d; }

/* ---- String object: { int64_t rc; int64_t len; char bytes[]; } ---- */
typedef struct { int64_t rc; int64_t len; char bytes[]; } AriaStr;

static void* aria_str_alloc(int64_t len) {
    AriaStr* s = (AriaStr*)malloc(sizeof(AriaStr) + (size_t)len);
    if (!s) aria_trap();
    s->rc = 1;
    s->len = len;
    aria_live++;
    return (void*)s;
}
static inline void aria_str_dup(void* p) { ((AriaStr*)p)->rc++; }
static void aria_str_drop(void* p) {
    AriaStr* s = (AriaStr*)p;
    if (--s->rc == 0) { aria_live--; free(s); }
}
static void* aria_str_lit(const char* bytes, int64_t len) {
    AriaStr* s = (AriaStr*)aria_str_alloc(len);
    memcpy(s->bytes, bytes, (size_t)len);
    return (void*)s;
}

/* ---- dup/drop/reuse for ADT cells (per-tag field release below) ---- */
static inline void aria_dup(void* p) { ((AriaCell*)p)->rc++; }
static void aria_drop_children(void* p);  /* program-specific, emitted below */

static void aria_drop(void* p) {
    AriaCell* c = (AriaCell*)p;
    if (--c->rc == 0) {
        aria_drop_children(p);
        aria_live--;
        free(c);
    }
}

/* Drop for reuse: if the cell becomes unique-and-dead, release its children but
   RETAIN the slot, returning the pointer; otherwise return NULL. */
static void* aria_drop_reuse(void* p) {
    AriaCell* c = (AriaCell*)p;
    if (--c->rc == 0) {
        aria_drop_children(p);
        return p;  /* slot retained for a same-arity CtorReuse */
    }
    return NULL;
}

"#;

/// Native arrays.
pub const RUNTIME_ARRAYS: &'static str = r#"/* ---- native array: { rc; kind; len; cap; int64_t elems[] } ----
   kind codes match SlotKind: 0=Int/Bool, 1=Float, 2=Str, 3=Ref (ADT/closure),
   4=Bytes, 5=Array (nested), 6=Map, 7=Set, 9=Vector. Elements are stored one per
   int64 slot: Int directly, Float via aria_f2i, every heap kind as the pointer
   cast through uintptr_t. Per-element dup/drop dispatch through the shared
   aria_slot_dup/aria_slot_drop (forward-declared) so each heap kind uses its
   CORRECT recursive drop. FBIP: set/push mutate in place when rc==1, else COW. */
static void aria_slot_dup(int64_t kind, int64_t slot);
static void aria_slot_drop(int64_t kind, int64_t slot);
typedef struct { int64_t rc; int64_t kind; int64_t len; int64_t cap; int64_t elems[]; } AriaArray;

static void* aria_array_alloc(int64_t kind, int64_t cap) {
    AriaArray* a = (AriaArray*)malloc(sizeof(AriaArray) + (size_t)cap * sizeof(int64_t));
    if (!a) aria_trap();
    a->rc = 1; a->kind = kind; a->len = 0; a->cap = cap;
    aria_live++;
    return (void*)a;
}
static void* aria_array_new(int64_t kind) { return aria_array_alloc(kind, 0); }
static inline void aria_array_dup(void* p) { ((AriaArray*)p)->rc++; }
static void aria_array_drop(void* p);  /* defined below */
static int64_t aria_array_len(void* p) {
    int64_t n = ((AriaArray*)p)->len;
    aria_array_drop(p);  /* array_len consumes its array argument */
    return n;
}

/* Dup a single element slot (used when copy-on-write clones a buffer). The
   kind-aware dispatch lives in aria_slot_dup (Str/Ref/Bytes/Array/Map/Set/Vector;
   Int/Float are no-ops). */
static void aria_array_dup_elem(int64_t kind, int64_t slot) {
    aria_slot_dup(kind, slot);
}
/* Drop a single element slot. */
static void aria_array_drop_elem(int64_t kind, int64_t slot) {
    aria_slot_drop(kind, slot);
}

static void aria_array_drop(void* p) {
    AriaArray* a = (AriaArray*)p;
    if (--a->rc == 0) {
        /* Int(0)/Float(1)/Bool(8) elements store inline — nothing to drop. */
        if (a->kind != 0 && a->kind != 1 && a->kind != 8) {
            for (int64_t i = 0; i < a->len; i++) aria_slot_drop(a->kind, a->elems[i]);
        }
        aria_live--;
        free(a);
    }
}

static int64_t aria_array_get(void* p, int64_t i) {
    AriaArray* a = (AriaArray*)p;
    if (i < 0 || i >= a->len) aria_trap_msg("array index out of range");
    int64_t slot = a->elems[i];
    /* The element is still owned by the array; hand the caller its own
       reference, then release the (consumed) array. */
    aria_array_dup_elem(a->kind, slot);
    aria_array_drop(p);
    return slot;
}

/* Clone an array's buffer (dup'ing each Str/Ref element) for copy-on-write. */
static void* aria_array_clone(AriaArray* a) {
    int64_t cap = a->len > 0 ? a->len : 1;
    AriaArray* n = (AriaArray*)aria_array_alloc(a->kind, cap);
    n->len = a->len;
    for (int64_t i = 0; i < a->len; i++) {
        n->elems[i] = a->elems[i];
        aria_array_dup_elem(a->kind, a->elems[i]);
    }
    return (void*)n;
}

static void* aria_array_set(void* p, int64_t i, int64_t x) {
    AriaArray* a = (AriaArray*)p;
    if (i < 0 || i >= a->len) aria_trap_msg("array index out of range");
    if (a->rc == 1) {
        /* FBIP: overwrite in place; drop the displaced element. */
        aria_array_drop_elem(a->kind, a->elems[i]);
        a->elems[i] = x;
        aria_reuses++;
        return p;
    }
    /* Copy-on-write: clone (dup'ing each element), then overwrite slot i with x
       (releasing the freshly-dup'd element that x replaces), drop original. */
    AriaArray* n = (AriaArray*)aria_array_clone(a);
    aria_array_drop_elem(n->kind, n->elems[i]);
    n->elems[i] = x;
    aria_array_drop(p);
    return (void*)n;
}

/* Grow an array (rc==1, owned) so it has room for at least one more element.
   When `cap==0` (a fresh `array_new`) start at a sane minimum (4). The WHOLE
   AriaArray object (header + inline `elems[]`) is reallocated together, so the
   returned pointer may have moved — callers must use it. */
static AriaArray* aria_array_grow(AriaArray* a) {
    if (a->len < a->cap) return a;
    int64_t ncap = a->cap > 0 ? a->cap * 2 : 4;
    AriaArray* g = (AriaArray*)realloc(a, sizeof(AriaArray) + (size_t)ncap * sizeof(int64_t));
    if (!g) aria_trap();
    g->cap = ncap;
    return g;
}

/* `kind` is the AUTHORITATIVE element kind from the (correctly-suffixed) push
   call site. An empty `array_new` may have been tagged with a stale kind by the
   monomorphizer; reconcile the header here while the array still has no live
   element references (len==0), so the kind-aware dup/drop stay correct. */
static void* aria_array_push(void* p, int64_t x, int64_t kind) {
    AriaArray* a = (AriaArray*)p;
    if (a->len == 0) a->kind = kind;
    if (a->rc == 1) {
        /* FBIP: realloc-grow the whole object in place. */
        a = aria_array_grow(a);
        a->elems[a->len++] = x;
        aria_reuses++;
        return (void*)a;
    }
    /* Copy-on-write: clone, append x, drop original. */
    AriaArray* n = (AriaArray*)aria_array_clone(a);
    n->kind = kind;
    n = aria_array_grow(n);
    n->elems[n->len++] = x;
    aria_array_drop(p);
    return (void*)n;
}

"#;

/// Byte buffers.
pub const RUNTIME_BYTES: &'static str = r#"/* ---- Bytes: a flat, growable, reference-counted byte buffer ----
   Layout: { rc; len; cap; unsigned char bytes[] }. A byte is an Int 0..255.
   Modeled on the String object plus a `cap` for growth. FBIP: set/push mutate
   in place when rc==1, else copy-on-write. Range policy: bytes_set/bytes_push
   with a value outside 0..255 trap (identical across all backends). */
typedef struct { int64_t rc; int64_t len; int64_t cap; unsigned char bytes[]; } AriaBytes;

static void* aria_bytes_alloc(int64_t cap) {
    AriaBytes* b = (AriaBytes*)malloc(sizeof(AriaBytes) + (size_t)cap);
    if (!b) aria_trap();
    b->rc = 1; b->len = 0; b->cap = cap;
    aria_live++;
    return (void*)b;
}
static void* aria_bytes_new(void) { return aria_bytes_alloc(0); }
static inline void aria_bytes_dup(void* p) { ((AriaBytes*)p)->rc++; }
static void aria_bytes_drop(void* p) {
    AriaBytes* b = (AriaBytes*)p;
    if (--b->rc == 0) { aria_live--; free(b); }
}
static int64_t aria_bytes_len(void* p) {
    int64_t n = ((AriaBytes*)p)->len;
    aria_bytes_drop(p);  /* bytes_len consumes its argument */
    return n;
}
static int64_t aria_bytes_get(void* p, int64_t i) {
    AriaBytes* b = (AriaBytes*)p;
    if (i < 0 || i >= b->len) aria_trap_msg("bytes index out of range");
    int64_t v = (int64_t)b->bytes[i];
    aria_bytes_drop(p);  /* bytes_get consumes its argument */
    return v;
}
static AriaBytes* aria_bytes_clone(AriaBytes* b) {
    int64_t cap = b->len > 0 ? b->len : 1;
    AriaBytes* n = (AriaBytes*)aria_bytes_alloc(cap);
    n->len = b->len;
    memcpy(n->bytes, b->bytes, (size_t)b->len);
    return n;
}
static void* aria_bytes_set(void* p, int64_t i, int64_t v) {
    AriaBytes* b = (AriaBytes*)p;
    if (i < 0 || i >= b->len) aria_trap_msg("bytes index out of range");
    if (v < 0 || v > 255) aria_trap_msg("byte value out of range (must be 0..255)");
    if (b->rc == 1) {
        b->bytes[i] = (unsigned char)v;
        aria_reuses++;
        return p;
    }
    AriaBytes* n = aria_bytes_clone(b);
    n->bytes[i] = (unsigned char)v;
    aria_bytes_drop(p);
    return (void*)n;
}
static AriaBytes* aria_bytes_grow(AriaBytes* b) {
    if (b->len < b->cap) return b;
    int64_t ncap = b->cap > 0 ? b->cap * 2 : 4;
    AriaBytes* g = (AriaBytes*)realloc(b, sizeof(AriaBytes) + (size_t)ncap);
    if (!g) aria_trap();
    g->cap = ncap;
    return g;
}
static void* aria_bytes_push(void* p, int64_t v) {
    AriaBytes* b = (AriaBytes*)p;
    if (v < 0 || v > 255) aria_trap_msg("byte value out of range (must be 0..255)");
    if (b->rc == 1) {
        b = aria_bytes_grow(b);
        b->bytes[b->len++] = (unsigned char)v;
        aria_reuses++;
        return (void*)b;
    }
    AriaBytes* n = aria_bytes_clone(b);
    n = aria_bytes_grow(n);
    n->bytes[n->len++] = (unsigned char)v;
    aria_bytes_drop(p);
    return (void*)n;
}
static void* aria_bytes_from_str(void* p) {
    AriaStr* s = (AriaStr*)p;
    AriaBytes* b = (AriaBytes*)aria_bytes_alloc(s->len > 0 ? s->len : 0);
    b->len = s->len;
    memcpy(b->bytes, s->bytes, (size_t)s->len);
    aria_str_drop(p);  /* the Str argument is consumed */
    return (void*)b;
}
/* Minimal UTF-8 validation: trap on an ill-formed sequence (matches the
   interpreter's clean error on invalid UTF-8). */
static int aria_utf8_valid(const unsigned char* s, int64_t n) {
    int64_t i = 0;
    while (i < n) {
        unsigned char c = s[i];
        int64_t need;            /* number of continuation bytes that follow c */
        unsigned char lo = 0x80, hi = 0xBF;  /* allowed range of the 1st cont. */
        if (c < 0x80) { i++; continue; }
        else if (c >= 0xC2 && c <= 0xDF) need = 1;
        else if (c == 0xE0) { need = 2; lo = 0xA0; }
        else if (c >= 0xE1 && c <= 0xEC) need = 2;
        else if (c == 0xED) { need = 2; hi = 0x9F; }
        else if (c >= 0xEE && c <= 0xEF) need = 2;
        else if (c == 0xF0) { need = 3; lo = 0x90; }
        else if (c >= 0xF1 && c <= 0xF3) need = 3;
        else if (c == 0xF4) { need = 3; hi = 0x8F; }
        else return 0;
        if (i + need >= n) return 0;   /* truncated multibyte sequence */
        for (int64_t k = 1; k <= need; k++) {
            unsigned char cc = s[i + k];
            unsigned char l = (k == 1) ? lo : 0x80;
            unsigned char h = (k == 1) ? hi : 0xBF;
            if (cc < l || cc > h) return 0;
        }
        i += need + 1;
    }
    return 1;
}
static void* aria_bytes_to_str(void* p) {
    AriaBytes* b = (AriaBytes*)p;
    if (!aria_utf8_valid(b->bytes, b->len)) aria_trap_msg("bytes are not valid UTF-8");
    AriaStr* s = (AriaStr*)aria_str_alloc(b->len);
    memcpy(s->bytes, b->bytes, (size_t)b->len);
    aria_bytes_drop(p);  /* the Bytes argument is consumed */
    return (void*)s;
}
/* Structural Bytes equality (content). Consumes neither operand here; the
   `_consume` wrapper releases both for the ==/!= operators. */
static int64_t aria_byteseq(void* a, void* b) {
    AriaBytes* x = (AriaBytes*)a; AriaBytes* y = (AriaBytes*)b;
    if (x->len != y->len) return 0;
    return memcmp(x->bytes, y->bytes, (size_t)x->len) == 0;
}
static int64_t aria_byteseq_consume(void* a, void* b) {
    int64_t r = aria_byteseq(a, b);
    aria_bytes_drop(a); aria_bytes_drop(b);
    return r;
}
/* Print the canonical `Bytes[..]` rendering (does NOT consume the buffer). */
static void aria_print_bytes_value(void* p) {
    AriaBytes* b = (AriaBytes*)p;
    fputs("Bytes[", stdout);
    for (int64_t i = 0; i < b->len; i++) {
        if (i > 0) fputc(' ', stdout);
        printf("%02x", (unsigned)b->bytes[i]);
    }
    fputs("]\n", stdout);
}

"#;

/// Float vectors.
pub const RUNTIME_VECTORS: &'static str = r#"/* ---- Vector / Embedding (dense, immutable buffer of f64) ------------------
   An AriaVector is a flat heap buffer of `double`, modeled exactly on AriaBytes
   but with f64 elements. push/add/scale are FBIP: they mutate in place when
   rc==1, else copy-on-write — always garbage-free. dot/cosine/add on two vectors
   of UNEQUAL length trap (clean runtime error, matching the interpreter). cosine
   returns 0.0 when either operand has L2 norm 0 (no divide-by-zero -> NaN). The
   `Vector[..]` display uses the SAME shortest-round-trip `aria_fmt_float` as a
   scalar Float, so it is byte-for-byte identical to the interpreter. */
typedef struct { int64_t rc; int64_t len; int64_t cap; double elems[]; } AriaVector;
static void aria_fmt_float(double d, char* buf, size_t cap);            /* fwd */

static void* aria_vec_alloc(int64_t cap) {
    AriaVector* v = (AriaVector*)malloc(sizeof(AriaVector) + (size_t)cap * sizeof(double));
    if (!v) aria_trap();
    v->rc = 1; v->len = 0; v->cap = cap;
    aria_live++;
    return (void*)v;
}
static void* aria_vec_new(void) { return aria_vec_alloc(0); }
static inline void aria_vec_dup(void* p) { ((AriaVector*)p)->rc++; }
static void aria_vec_drop(void* p) {
    AriaVector* v = (AriaVector*)p;
    if (--v->rc == 0) { aria_live--; free(v); }
}
static int64_t aria_vec_len(void* p) {
    int64_t n = ((AriaVector*)p)->len;
    aria_vec_drop(p);  /* vec_len consumes its argument */
    return n;
}
static double aria_vec_get(void* p, int64_t i) {
    AriaVector* v = (AriaVector*)p;
    if (i < 0 || i >= v->len) aria_trap_msg("vector index out of range");
    double x = v->elems[i];
    aria_vec_drop(p);  /* vec_get consumes its argument */
    return x;
}
static AriaVector* aria_vec_clone(AriaVector* v) {
    int64_t cap = v->len > 0 ? v->len : 1;
    AriaVector* n = (AriaVector*)aria_vec_alloc(cap);
    n->len = v->len;
    memcpy(n->elems, v->elems, (size_t)v->len * sizeof(double));
    return n;
}
static AriaVector* aria_vec_grow(AriaVector* v) {
    if (v->len < v->cap) return v;
    int64_t ncap = v->cap > 0 ? v->cap * 2 : 4;
    AriaVector* g = (AriaVector*)realloc(v, sizeof(AriaVector) + (size_t)ncap * sizeof(double));
    if (!g) aria_trap();
    g->cap = ncap;
    return g;
}
static void* aria_vec_push(void* p, double x) {
    AriaVector* v = (AriaVector*)p;
    if (v->rc == 1) {
        v = aria_vec_grow(v);
        v->elems[v->len++] = x;
        aria_reuses++;
        return (void*)v;
    }
    AriaVector* n = aria_vec_clone(v);
    n = aria_vec_grow(n);
    n->elems[n->len++] = x;
    aria_vec_drop(p);
    return (void*)n;
}
/* Build a Vector from an Array[Float] (kind code 1). Consumes the array. */
static void* aria_vec_from_array(void* p) {
    AriaArray* a = (AriaArray*)p;
    AriaVector* v = (AriaVector*)aria_vec_alloc(a->len > 0 ? a->len : 0);
    v->len = a->len;
    for (int64_t i = 0; i < a->len; i++) v->elems[i] = aria_i2f(a->elems[i]);
    aria_array_drop(p);  /* the Array argument is consumed */
    return (void*)v;
}
/* Build an Array[Float] (kind code 1) from a Vector. Consumes the vector. */
static void* aria_vec_to_array(void* p) {
    AriaVector* v = (AriaVector*)p;
    void* a = aria_array_new(INT64_C(1));
    for (int64_t i = 0; i < v->len; i++) a = aria_array_push(a, aria_f2i(v->elems[i]), INT64_C(1));
    aria_vec_drop(p);  /* the Vector argument is consumed */
    return a;
}
/* Sum of elementwise products (left-to-right, matching the interpreter's order
   so the float result is byte-for-byte identical). */
static double aria_vec_dot_raw(AriaVector* x, AriaVector* y) {
    double acc = 0.0;
    for (int64_t i = 0; i < x->len; i++) acc += x->elems[i] * y->elems[i];
    return acc;
}
static double aria_vec_dot(void* a, void* b) {
    AriaVector* x = (AriaVector*)a; AriaVector* y = (AriaVector*)b;
    if (x->len != y->len) aria_trap_msg("vector length mismatch");  /* clean trap */
    double r = aria_vec_dot_raw(x, y);
    aria_vec_drop(a); aria_vec_drop(b);  /* both operands consumed */
    return r;
}
static double aria_vec_norm(void* a) {
    AriaVector* x = (AriaVector*)a;
    double r = sqrt(aria_vec_dot_raw(x, x));
    aria_vec_drop(a);
    return r;
}
static double aria_vec_cosine(void* a, void* b) {
    AriaVector* x = (AriaVector*)a; AriaVector* y = (AriaVector*)b;
    if (x->len != y->len) aria_trap_msg("vector length mismatch");  /* clean trap */
    double nx = sqrt(aria_vec_dot_raw(x, x));
    double ny = sqrt(aria_vec_dot_raw(y, y));
    double r;
    /* Zero-norm policy: return 0.0 (never divide by zero -> NaN). */
    if (nx == 0.0 || ny == 0.0) r = 0.0;
    else r = aria_vec_dot_raw(x, y) / (nx * ny);
    aria_vec_drop(a); aria_vec_drop(b);
    return r;
}
/* Elementwise add. FBIP: reuse the first operand in place when it is unique. */
static void* aria_vec_add(void* a, void* b) {
    AriaVector* x = (AriaVector*)a; AriaVector* y = (AriaVector*)b;
    if (x->len != y->len) aria_trap_msg("vector length mismatch");  /* clean trap */
    if (x->rc == 1) {
        for (int64_t i = 0; i < x->len; i++) x->elems[i] += y->elems[i];
        aria_reuses++;
        aria_vec_drop(b);
        return a;
    }
    AriaVector* n = aria_vec_clone(x);
    for (int64_t i = 0; i < n->len; i++) n->elems[i] += y->elems[i];
    aria_vec_drop(a); aria_vec_drop(b);
    return (void*)n;
}
/* Multiply every element by a scalar. FBIP when the operand is unique. */
static void* aria_vec_scale(void* a, double s) {
    AriaVector* x = (AriaVector*)a;
    if (x->rc == 1) {
        for (int64_t i = 0; i < x->len; i++) x->elems[i] *= s;
        aria_reuses++;
        return a;
    }
    AriaVector* n = aria_vec_clone(x);
    for (int64_t i = 0; i < n->len; i++) n->elems[i] *= s;
    aria_vec_drop(a);
    return (void*)n;
}
/* Structural Vector equality (length + exact element bits). Does NOT consume. */
static int64_t aria_veceq(void* a, void* b) {
    AriaVector* x = (AriaVector*)a; AriaVector* y = (AriaVector*)b;
    if (x->len != y->len) return 0;
    for (int64_t i = 0; i < x->len; i++) if (x->elems[i] != y->elems[i]) return 0;
    return 1;
}
static int64_t aria_veceq_consume(void* a, void* b) {
    int64_t r = aria_veceq(a, b);
    aria_vec_drop(a); aria_vec_drop(b);
    return r;
}
/* Print the canonical `Vector[..]` rendering (does NOT consume the buffer). */
static void aria_print_vec_value(void* p) {
    AriaVector* v = (AriaVector*)p;
    char tmp[320];
    fputs("Vector[", stdout);
    for (int64_t i = 0; i < v->len; i++) {
        if (i > 0) fputs(", ", stdout);
        aria_fmt_float(v->elems[i], tmp, sizeof tmp);
        fputs(tmp, stdout);
    }
    fputs("]\n", stdout);
}

"#;

/// Ordered maps and sets: slots and maps.
pub const RUNTIME_MAPS: &'static str = r#"/* ---- Ordered Map and Set -------------------------------------------------
   An AriaMap is kept SORTED BY KEY ascending; an AriaSet sorted by element.
   This makes iteration / display / equality deterministic and identical to the
   interpreter (the differential oracle). Storage is an insertion-sorted array of
   int64 slots: a Map stores interleaved [k0,v0,k1,v1,...], a Set stores
   [e0,e1,...]. Each slot is encoded like the array runtime (Int directly, Float
   via aria_f2i, heap pointer via uintptr_t). `kkind`/`vkind` (the SlotKind codes
   0=Int,1=Float,2=Str,3=Ref,4=Bytes,5=Array,6=Map,7=Set) drive the kind-aware
   dup/drop. Keys are only ever Int(0) or Str(2). FBIP: insert/add/remove mutate
   in place when rc==1, else copy-on-write — always garbage-free. */
static int64_t aria_eq(void* a, void* b);
static int64_t aria_byteseq(void* a, void* b);
static int64_t aria_streq(void* a, void* b);
static void aria_print_int_inline(int64_t n);
static void aria_print_float_inline(double d);
static void aria_map_dup(void* p);
static void aria_map_drop(void* p);
static void aria_set_dup(void* p);
static void aria_set_drop(void* p);
static int64_t aria_map_eq(void* a, void* b);
static int64_t aria_set_eq(void* a, void* b);
static void aria_print_map_value(void* p);
static void aria_print_set_value(void* p);

/* Dup / drop a single slot by its SlotKind code. */
static void aria_slot_dup(int64_t kind, int64_t slot) {
    switch (kind) {
        case 2: aria_str_dup((void*)(uintptr_t)slot); break;
        case 3: aria_dup((void*)(uintptr_t)slot); break;
        case 4: aria_bytes_dup((void*)(uintptr_t)slot); break;
        case 5: aria_array_dup((void*)(uintptr_t)slot); break;
        case 6: aria_map_dup((void*)(uintptr_t)slot); break;
        case 7: aria_set_dup((void*)(uintptr_t)slot); break;
        case 9: aria_vec_dup((void*)(uintptr_t)slot); break;
        default: break;  /* Int(0)/Float(1)/Bool(8): nothing to dup */
    }
}
static void aria_slot_drop(int64_t kind, int64_t slot) {
    switch (kind) {
        case 2: aria_str_drop((void*)(uintptr_t)slot); break;
        case 3: aria_drop((void*)(uintptr_t)slot); break;
        case 4: aria_bytes_drop((void*)(uintptr_t)slot); break;
        case 5: aria_array_drop((void*)(uintptr_t)slot); break;
        case 6: aria_map_drop((void*)(uintptr_t)slot); break;
        case 7: aria_set_drop((void*)(uintptr_t)slot); break;
        case 9: aria_vec_drop((void*)(uintptr_t)slot); break;
        default: break;  /* Int(0)/Float(1)/Bool(8): nothing to drop */
    }
}
/* Total ordering on keys/elements. kind is 0 (Int) or 2 (Str). Returns <0/0/>0. */
static int aria_key_cmp(int64_t kind, int64_t a, int64_t b) {
    if (kind == 2) {
        AriaStr* x = (AriaStr*)(uintptr_t)a; AriaStr* y = (AriaStr*)(uintptr_t)b;
        int64_t n = x->len < y->len ? x->len : y->len;
        int c = memcmp(x->bytes, y->bytes, (size_t)n);
        if (c != 0) return c;
        if (x->len < y->len) return -1;
        if (x->len > y->len) return 1;
        return 0;
    }
    /* Int (kind 0): signed numeric order. */
    if (a < b) return -1;
    if (a > b) return 1;
    return 0;
}
/* Compare two value slots for equality, kind-aware. */
static int64_t aria_slot_eq(int64_t kind, int64_t a, int64_t b) {
    switch (kind) {
        case 1: return aria_i2f(a) == aria_i2f(b);                  /* Float */
        case 2: return aria_streq((void*)(uintptr_t)a, (void*)(uintptr_t)b);
        case 3: return aria_eq((void*)(uintptr_t)a, (void*)(uintptr_t)b);
        case 4: return aria_byteseq((void*)(uintptr_t)a, (void*)(uintptr_t)b);
        case 6: return aria_map_eq((void*)(uintptr_t)a, (void*)(uintptr_t)b);
        case 7: return aria_set_eq((void*)(uintptr_t)a, (void*)(uintptr_t)b);
        default: return a == b;                                      /* Int */
    }
}
/* Print a single value slot inline (no trailing newline), matching the
   interpreter's display for that value type. */
static void aria_print_slot(int64_t kind, int64_t slot) {
    switch (kind) {
        case 1: aria_print_float_inline(aria_i2f(slot)); break;
        case 2: { AriaStr* s = (AriaStr*)(uintptr_t)slot; fwrite(s->bytes, 1, (size_t)s->len, stdout); break; }
        case 4: aria_print_bytes_value((void*)(uintptr_t)slot); break;  /* Bytes already has its own form */
        case 6: aria_print_map_value((void*)(uintptr_t)slot); break;
        case 7: aria_print_set_value((void*)(uintptr_t)slot); break;
        case 8: fputs(slot ? "true" : "false", stdout); break;  /* Bool */
        default: aria_print_int_inline(slot); break;  /* Int */
    }
}

typedef struct { int64_t rc; int64_t kkind; int64_t vkind; int64_t len; int64_t cap; int64_t slots[]; } AriaMap;

static void* aria_map_alloc(int64_t kkind, int64_t vkind, int64_t cap) {
    AriaMap* m = (AriaMap*)malloc(sizeof(AriaMap) + (size_t)cap * 2 * sizeof(int64_t));
    if (!m) aria_trap();
    m->rc = 1; m->kkind = kkind; m->vkind = vkind; m->len = 0; m->cap = cap;
    aria_live++;
    return (void*)m;
}
static void* aria_map_new(int64_t kkind, int64_t vkind) { return aria_map_alloc(kkind, vkind, 0); }
static void aria_map_dup(void* p) { ((AriaMap*)p)->rc++; }
static void aria_map_drop(void* p) {
    AriaMap* m = (AriaMap*)p;
    if (--m->rc == 0) {
        for (int64_t i = 0; i < m->len; i++) {
            aria_slot_drop(m->kkind, m->slots[2*i]);
            aria_slot_drop(m->vkind, m->slots[2*i+1]);
        }
        aria_live--;
        free(m);
    }
}
static int64_t aria_map_len(void* p) {
    int64_t n = ((AriaMap*)p)->len;
    aria_map_drop(p);  /* map_len consumes its argument */
    return n;
}
/* Binary search for `key` (kind kkind); returns the index if present (sets
   *found=1) or the insertion point (*found=0). */
static int64_t aria_map_find(AriaMap* m, int64_t key, int* found) {
    int64_t lo = 0, hi = m->len;
    while (lo < hi) {
        int64_t mid = lo + (hi - lo) / 2;
        int c = aria_key_cmp(m->kkind, m->slots[2*mid], key);
        if (c == 0) { *found = 1; return mid; }
        if (c < 0) lo = mid + 1; else hi = mid;
    }
    *found = 0;
    return lo;
}
static AriaMap* aria_map_clone(AriaMap* m) {
    int64_t cap = m->len > 0 ? m->len : 1;
    AriaMap* n = (AriaMap*)aria_map_alloc(m->kkind, m->vkind, cap);
    n->len = m->len;
    for (int64_t i = 0; i < m->len; i++) {
        n->slots[2*i]   = m->slots[2*i];   aria_slot_dup(m->kkind, m->slots[2*i]);
        n->slots[2*i+1] = m->slots[2*i+1]; aria_slot_dup(m->vkind, m->slots[2*i+1]);
    }
    return n;
}
static AriaMap* aria_map_grow(AriaMap* m) {
    if (m->len < m->cap) return m;
    int64_t ncap = m->cap > 0 ? m->cap * 2 : 4;
    AriaMap* g = (AriaMap*)realloc(m, sizeof(AriaMap) + (size_t)ncap * 2 * sizeof(int64_t));
    if (!g) aria_trap();
    g->cap = ncap;
    return g;
}
/* Insert (or replace) key->val. Ownership of `key` and `val` transfers in. A
   replaced key's old value is dropped; the duplicate key (on replace) is dropped.
   FBIP in place when rc==1, else copy-on-write. The argument map is consumed. */
static void* aria_map_insert(void* p, int64_t key, int64_t val, int64_t kkind, int64_t vkind) {
    AriaMap* m = (AriaMap*)p;
    if (m->len == 0) { m->kkind = kkind; m->vkind = vkind; }
    if (m->rc != 1) {
        AriaMap* n = aria_map_clone(m);
        aria_map_drop(p);
        m = n;
    } else {
        aria_reuses++;  /* FBIP: mutate the uniquely-owned buffer in place */
    }
    int found = 0;
    int64_t idx = aria_map_find(m, key, &found);
    if (found) {
        aria_slot_drop(m->vkind, m->slots[2*idx+1]);  /* drop displaced value */
        m->slots[2*idx+1] = val;
        aria_slot_drop(m->kkind, key);                /* duplicate key not stored */
        return (void*)m;
    }
    m = aria_map_grow(m);
    /* Shift entries [idx..len) right by one to open a slot at idx. */
    for (int64_t i = m->len; i > idx; i--) {
        m->slots[2*i]   = m->slots[2*(i-1)];
        m->slots[2*i+1] = m->slots[2*(i-1)+1];
    }
    m->slots[2*idx] = key;
    m->slots[2*idx+1] = val;
    m->len++;
    return (void*)m;
}
/* Total read: returns the stored value (dup'd) if present, else `dflt`. The
   not-taken branch's slot is dropped so exactly one value reference is returned.
   The map argument is consumed. */
static int64_t aria_map_get_or(void* p, int64_t key, int64_t dflt, int64_t kkind, int64_t vkind) {
    AriaMap* m = (AriaMap*)p;
    (void)kkind;
    int found = 0;
    int64_t idx = aria_map_find(m, key, &found);
    int64_t result;
    if (found) {
        result = m->slots[2*idx+1];
        aria_slot_dup(vkind, result);     /* hand caller its own reference */
        aria_slot_drop(vkind, dflt);      /* default not used */
    } else {
        result = dflt;                    /* ownership of dflt passes to caller */
    }
    aria_slot_drop(kkind, key);           /* the lookup key is consumed */
    aria_map_drop(p);
    return result;
}
static int64_t aria_map_has(void* p, int64_t key, int64_t kkind) {
    AriaMap* m = (AriaMap*)p;
    int found = 0;
    (void)aria_map_find(m, key, &found);
    aria_slot_drop(kkind, key);
    aria_map_drop(p);
    return found ? 1 : 0;
}
/* Remove key if present. FBIP in place when rc==1, else copy-on-write. */
static void* aria_map_remove(void* p, int64_t key, int64_t kkind) {
    AriaMap* m = (AriaMap*)p;
    if (m->rc != 1) {
        AriaMap* n = aria_map_clone(m);
        aria_map_drop(p);
        m = n;
    } else {
        aria_reuses++;
    }
    int found = 0;
    int64_t idx = aria_map_find(m, key, &found);
    if (found) {
        aria_slot_drop(m->kkind, m->slots[2*idx]);
        aria_slot_drop(m->vkind, m->slots[2*idx+1]);
        for (int64_t i = idx; i + 1 < m->len; i++) {
            m->slots[2*i]   = m->slots[2*(i+1)];
            m->slots[2*i+1] = m->slots[2*(i+1)+1];
        }
        m->len--;
    }
    aria_slot_drop(kkind, key);  /* the lookup key is consumed */
    return (void*)m;
}
static int64_t aria_map_eq(void* a, void* b) {
    AriaMap* x = (AriaMap*)a; AriaMap* y = (AriaMap*)b;
    if (x->len != y->len) return 0;
    for (int64_t i = 0; i < x->len; i++) {
        if (aria_key_cmp(x->kkind, x->slots[2*i], y->slots[2*i]) != 0) return 0;
        if (!aria_slot_eq(x->vkind, x->slots[2*i+1], y->slots[2*i+1])) return 0;
    }
    return 1;
}
static int64_t aria_map_eq_consume(void* a, void* b) {
    int64_t r = aria_map_eq(a, b);
    aria_map_drop(a); aria_map_drop(b);
    return r;
}
static void aria_print_map_value(void* p) {
    AriaMap* m = (AriaMap*)p;
    fputs("Map[", stdout);
    for (int64_t i = 0; i < m->len; i++) {
        if (i > 0) fputs(", ", stdout);
        aria_print_slot(m->kkind, m->slots[2*i]);
        fputs(": ", stdout);
        aria_print_slot(m->vkind, m->slots[2*i+1]);
    }
    fputs("]", stdout);
}

"#;

/// Sets and the value printers.
pub const RUNTIME_SETS: &'static str = r#"typedef struct { int64_t rc; int64_t ekind; int64_t len; int64_t cap; int64_t slots[]; } AriaSet;

static void* aria_set_alloc(int64_t ekind, int64_t cap) {
    AriaSet* s = (AriaSet*)malloc(sizeof(AriaSet) + (size_t)cap * sizeof(int64_t));
    if (!s) aria_trap();
    s->rc = 1; s->ekind = ekind; s->len = 0; s->cap = cap;
    aria_live++;
    return (void*)s;
}
static void* aria_set_new(int64_t ekind) { return aria_set_alloc(ekind, 0); }
static void aria_set_dup(void* p) { ((AriaSet*)p)->rc++; }
static void aria_set_drop(void* p) {
    AriaSet* s = (AriaSet*)p;
    if (--s->rc == 0) {
        for (int64_t i = 0; i < s->len; i++) aria_slot_drop(s->ekind, s->slots[i]);
        aria_live--;
        free(s);
    }
}
static int64_t aria_set_len(void* p) {
    int64_t n = ((AriaSet*)p)->len;
    aria_set_drop(p);
    return n;
}
static int64_t aria_set_find(AriaSet* s, int64_t e, int* found) {
    int64_t lo = 0, hi = s->len;
    while (lo < hi) {
        int64_t mid = lo + (hi - lo) / 2;
        int c = aria_key_cmp(s->ekind, s->slots[mid], e);
        if (c == 0) { *found = 1; return mid; }
        if (c < 0) lo = mid + 1; else hi = mid;
    }
    *found = 0;
    return lo;
}
static AriaSet* aria_set_clone(AriaSet* s) {
    int64_t cap = s->len > 0 ? s->len : 1;
    AriaSet* n = (AriaSet*)aria_set_alloc(s->ekind, cap);
    n->len = s->len;
    for (int64_t i = 0; i < s->len; i++) { n->slots[i] = s->slots[i]; aria_slot_dup(s->ekind, s->slots[i]); }
    return n;
}
static AriaSet* aria_set_grow(AriaSet* s) {
    if (s->len < s->cap) return s;
    int64_t ncap = s->cap > 0 ? s->cap * 2 : 4;
    AriaSet* g = (AriaSet*)realloc(s, sizeof(AriaSet) + (size_t)ncap * sizeof(int64_t));
    if (!g) aria_trap();
    g->cap = ncap;
    return g;
}
/* Add an element (ownership transfers in). An already-present element is a
   no-op (its incoming reference is dropped). FBIP in place when rc==1. */
static void* aria_set_add(void* p, int64_t e, int64_t ekind) {
    AriaSet* s = (AriaSet*)p;
    if (s->len == 0) s->ekind = ekind;
    if (s->rc != 1) {
        AriaSet* n = aria_set_clone(s);
        aria_set_drop(p);
        s = n;
    } else {
        aria_reuses++;
    }
    int found = 0;
    int64_t idx = aria_set_find(s, e, &found);
    if (found) { aria_slot_drop(s->ekind, e); return (void*)s; }
    s = aria_set_grow(s);
    for (int64_t i = s->len; i > idx; i--) s->slots[i] = s->slots[i-1];
    s->slots[idx] = e;
    s->len++;
    return (void*)s;
}
static int64_t aria_set_has(void* p, int64_t e, int64_t ekind) {
    AriaSet* s = (AriaSet*)p;
    int found = 0;
    (void)aria_set_find(s, e, &found);
    aria_slot_drop(ekind, e);
    aria_set_drop(p);
    return found ? 1 : 0;
}
static void* aria_set_remove(void* p, int64_t e, int64_t ekind) {
    AriaSet* s = (AriaSet*)p;
    if (s->rc != 1) {
        AriaSet* n = aria_set_clone(s);
        aria_set_drop(p);
        s = n;
    } else {
        aria_reuses++;
    }
    int found = 0;
    int64_t idx = aria_set_find(s, e, &found);
    if (found) {
        aria_slot_drop(s->ekind, s->slots[idx]);
        for (int64_t i = idx; i + 1 < s->len; i++) s->slots[i] = s->slots[i+1];
        s->len--;
    }
    aria_slot_drop(ekind, e);
    return (void*)s;
}
static int64_t aria_set_eq(void* a, void* b) {
    AriaSet* x = (AriaSet*)a; AriaSet* y = (AriaSet*)b;
    if (x->len != y->len) return 0;
    for (int64_t i = 0; i < x->len; i++)
        if (aria_key_cmp(x->ekind, x->slots[i], y->slots[i]) != 0) return 0;
    return 1;
}
static int64_t aria_set_eq_consume(void* a, void* b) {
    int64_t r = aria_set_eq(a, b);
    aria_set_drop(a); aria_set_drop(b);
    return r;
}
static void aria_print_set_value(void* p) {
    AriaSet* s = (AriaSet*)p;
    fputs("Set[", stdout);
    for (int64_t i = 0; i < s->len; i++) {
        if (i > 0) fputs(", ", stdout);
        aria_print_slot(s->ekind, s->slots[i]);
    }
    fputs("]", stdout);
}

"#;

/// The canonical strings of maps and sets, and their enumeration.
pub const RUNTIME_SHOW: &'static str = r#"/* ---- map_show / set_show: render the canonical string into an AriaStr ----
   A growable byte buffer mirrors `aria_print_slot`, so the produced text is
   byte-for-byte identical to the interpreter's `Value::display`. */
static void aria_fmt_float(double d, char* buf, size_t cap);  /* fwd */
typedef struct { char* p; size_t len; size_t cap; } AriaSB;
static void aria_sb_reserve(AriaSB* b, size_t extra) {
    if (b->len + extra + 1 > b->cap) {
        size_t ncap = b->cap ? b->cap * 2 : 32;
        while (b->len + extra + 1 > ncap) ncap *= 2;
        char* np = (char*)realloc(b->p, ncap);
        if (!np) aria_trap();
        b->p = np; b->cap = ncap;
    }
}
static void aria_sb_puts(AriaSB* b, const char* s, size_t n) {
    aria_sb_reserve(b, n);
    memcpy(b->p + b->len, s, n);
    b->len += n;
}
static void aria_sb_cstr(AriaSB* b, const char* s) { aria_sb_puts(b, s, strlen(s)); }
/* Append a single value slot's rendering (no separators). */
static void aria_sb_slot(AriaSB* b, int64_t kind, int64_t slot) {
    char tmp[330];
    switch (kind) {
        case 1: { aria_fmt_float(aria_i2f(slot), tmp, sizeof tmp); aria_sb_cstr(b, tmp); break; }
        case 2: { AriaStr* s = (AriaStr*)(uintptr_t)slot; aria_sb_puts(b, s->bytes, (size_t)s->len); break; }
        case 4: { /* Bytes: `Bytes[xx xx]` */
            AriaBytes* by = (AriaBytes*)(uintptr_t)slot;
            aria_sb_cstr(b, "Bytes[");
            for (int64_t i = 0; i < by->len; i++) {
                if (i > 0) aria_sb_cstr(b, " ");
                snprintf(tmp, sizeof tmp, "%02x", (unsigned)by->bytes[i]);
                aria_sb_cstr(b, tmp);
            }
            aria_sb_cstr(b, "]");
            break;
        }
        case 8: aria_sb_cstr(b, slot ? "true" : "false"); break;  /* Bool */
        default: { snprintf(tmp, sizeof tmp, "%lld", (long long)slot); aria_sb_cstr(b, tmp); break; }
    }
}
static AriaStr* aria_sb_finish(AriaSB* b) {
    AriaStr* s = (AriaStr*)aria_str_alloc((int64_t)b->len);
    memcpy(s->bytes, b->p, b->len);
    free(b->p);
    return s;
}
static void* aria_map_show(void* p) {
    AriaMap* m = (AriaMap*)p;
    AriaSB b = {0,0,0};
    aria_sb_cstr(&b, "Map[");
    for (int64_t i = 0; i < m->len; i++) {
        if (i > 0) aria_sb_cstr(&b, ", ");
        aria_sb_slot(&b, m->kkind, m->slots[2*i]);
        aria_sb_cstr(&b, ": ");
        aria_sb_slot(&b, m->vkind, m->slots[2*i+1]);
    }
    aria_sb_cstr(&b, "]");
    AriaStr* s = aria_sb_finish(&b);
    aria_map_drop(p);  /* map_show consumes its argument */
    return (void*)s;
}
static void* aria_set_show(void* p) {
    AriaSet* st = (AriaSet*)p;
    AriaSB b = {0,0,0};
    aria_sb_cstr(&b, "Set[");
    for (int64_t i = 0; i < st->len; i++) {
        if (i > 0) aria_sb_cstr(&b, ", ");
        aria_sb_slot(&b, st->ekind, st->slots[i]);
    }
    aria_sb_cstr(&b, "]");
    AriaStr* s = aria_sb_finish(&b);
    aria_set_drop(p);
    return (void*)s;
}

/* ---- map_keys / map_values / set_to_array: enumerate into an AriaArray ----
   Build a FRESH AriaArray of element kind `out_kind` from the map's keys /
   values or the set's elements, IN ASCENDING (key-/element-sorted) order — the
   same deterministic order as display/equality, so iteration is stable across
   backends. Each element is dup'd into the new array using the source slot kind
   (`src_kind`), then the source map/set is consumed (dropped), leaving no
   garbage. `out_kind` is the array element kind (Bool collapses to Int(0), a
   no-op for dup/drop). */
static void* aria_map_keys(void* p, int64_t src_kind, int64_t out_kind) {
    AriaMap* m = (AriaMap*)p;
    void* a = aria_array_new(out_kind);
    for (int64_t i = 0; i < m->len; i++) {
        int64_t slot = m->slots[2*i];
        aria_slot_dup(src_kind, slot);
        a = aria_array_push(a, slot, out_kind);
    }
    aria_map_drop(p);  /* map_keys consumes its argument */
    return a;
}
static void* aria_map_values(void* p, int64_t src_kind, int64_t out_kind) {
    AriaMap* m = (AriaMap*)p;
    void* a = aria_array_new(out_kind);
    for (int64_t i = 0; i < m->len; i++) {
        int64_t slot = m->slots[2*i+1];
        aria_slot_dup(src_kind, slot);
        a = aria_array_push(a, slot, out_kind);
    }
    aria_map_drop(p);  /* map_values consumes its argument */
    return a;
}
static void* aria_set_to_array(void* p, int64_t src_kind, int64_t out_kind) {
    AriaSet* s = (AriaSet*)p;
    void* a = aria_array_new(out_kind);
    for (int64_t i = 0; i < s->len; i++) {
        int64_t slot = s->slots[i];
        aria_slot_dup(src_kind, slot);
        a = aria_array_push(a, slot, out_kind);
    }
    aria_set_drop(p);  /* set_to_array consumes its argument */
    return a;
}

"#;

/// Structural equality, strings from values, and the print helpers.
pub const RUNTIME_TEXT: &'static str = r#"/* ---- structural equality (per-tag, emitted below) ---- */

static int64_t aria_streq(void* a, void* b) {
    AriaStr* x = (AriaStr*)a; AriaStr* y = (AriaStr*)b;
    if (x->len != y->len) return 0;
    return memcmp(x->bytes, y->bytes, (size_t)x->len) == 0;
}

/* The ==/!= operators consume their operands (the rc pass dups reused values),
   so these variants compare then release both. */
static int64_t aria_streq_consume(void* a, void* b) {
    int64_t r = aria_streq(a, b);
    aria_str_drop(a); aria_str_drop(b);
    return r;
}
static int64_t aria_eq_consume(void* a, void* b) {
    int64_t r = aria_eq(a, b);
    aria_drop(a); aria_drop(b);
    return r;
}

/* ---- concat / int_to_str ---- */
static void* aria_concat(void* a, void* b) {
    AriaStr* x = (AriaStr*)a; AriaStr* y = (AriaStr*)b;
    AriaStr* r = (AriaStr*)aria_str_alloc(x->len + y->len);
    memcpy(r->bytes, x->bytes, (size_t)x->len);
    memcpy(r->bytes + x->len, y->bytes, (size_t)y->len);
    aria_str_drop(a); aria_str_drop(b);  /* arguments are consumed */
    return (void*)r;
}
static void* aria_int_to_str(int64_t n) {
    char buf[24];
    int len = snprintf(buf, sizeof(buf), "%lld", (long long)n);
    AriaStr* r = (AriaStr*)aria_str_alloc(len);
    memcpy(r->bytes, buf, (size_t)len);
    return (void*)r;
}

/* ---- print helpers (match the interpreter's formatting) ---- */
static void aria_print_int(int64_t n) { printf("%lld\n", (long long)n); }
static void aria_print_bool(int64_t b) { fputs(b ? "true\n" : "false\n", stdout); }
/* Format `d` as the SHORTEST decimal that round-trips back to the same f64, in
   plain (non-scientific) notation -- matching the interpreter's Rust
   `format!("{}", f)` and the wasm backend's JS rendering. C's `%g` would pick a
   shortest significant-digit count but may switch to scientific notation
   (`100` -> `1e+02`), which Rust never does. So: find the shortest sig-digit
   count whose `%.*e` round-trips, then lay the digits out as a plain decimal. */
static void aria_fmt_float(double d, char* buf, size_t cap) {
    if (d != d) { snprintf(buf, cap, "NaN"); return; }
    if (d == 1.0/0.0) { snprintf(buf, cap, "inf"); return; }
    if (d == -1.0/0.0) { snprintf(buf, cap, "-inf"); return; }
    char sci[40];
    int p = 17;
    for (int q = 1; q <= 17; q++) {
        snprintf(sci, sizeof sci, "%.*e", q - 1, d);
        if (strtod(sci, NULL) == d) { p = q; break; }
    }
    (void)p;
    const char* s = sci;
    char* out = buf;
    if (*s == '-') { *out++ = '-'; s++; }
    char digits[20];
    int nd = 0;
    digits[nd++] = *s++;
    if (*s == '.') { s++; while (*s >= '0' && *s <= '9') digits[nd++] = *s++; }
    int exp10 = 0;
    if (*s == 'e' || *s == 'E') exp10 = (int)strtol(s + 1, NULL, 10);
    while (nd > 1 && digits[nd - 1] == '0') nd--;
    int point = exp10 + 1;
    if (point <= 0) {
        *out++ = '0'; *out++ = '.';
        for (int i = 0; i < -point; i++) *out++ = '0';
        for (int i = 0; i < nd; i++) *out++ = digits[i];
    } else if (point >= nd) {
        for (int i = 0; i < nd; i++) *out++ = digits[i];
        for (int i = nd; i < point; i++) *out++ = '0';
    } else {
        for (int i = 0; i < nd; i++) { if (i == point) *out++ = '.'; *out++ = digits[i]; }
    }
    *out = '\0';
}
static void aria_print_float(double d) {
    char buf[320];
    aria_fmt_float(d, buf, sizeof buf);
    printf("%s\n", buf);
}
/* Inline (no-newline) scalar renderers used by the Map/Set value printer. */
static void aria_print_int_inline(int64_t n) { printf("%lld", (long long)n); }
static void aria_print_float_inline(double d) {
    char buf[320];
    aria_fmt_float(d, buf, sizeof buf);
    fputs(buf, stdout);
}
static void aria_print_str(void* p) {
    AriaStr* s = (AriaStr*)p;
    fwrite(s->bytes, 1, (size_t)s->len, stdout);
    fputc('\n', stdout);
    aria_str_drop(p);  /* argument consumed */
}
"#;

/// The whole runtime.
pub open spec fn runtime() -> Seq<char> {
    RUNTIME_CELLS@ + RUNTIME_ARRAYS@ + RUNTIME_BYTES@ + RUNTIME_VECTORS@ + RUNTIME_MAPS@ + RUNTIME_SETS@ + RUNTIME_SHOW@ + RUNTIME_TEXT@
}

/// The whole runtime.
pub fn runtime_text() -> (r: String)
    ensures
        r@ == runtime(),
{
    let mut r: String = RUNTIME_CELLS.to_owned();
    r.append(RUNTIME_ARRAYS);
    r.append(RUNTIME_BYTES);
    r.append(RUNTIME_VECTORS);
    r.append(RUNTIME_MAPS);
    r.append(RUNTIME_SETS);
    r.append(RUNTIME_SHOW);
    r.append(RUNTIME_TEXT);
    r
}

} // verus!
