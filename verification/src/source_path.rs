//! Which paths hold source: programming, markup and prose files in the sense
//! of GitHub Linguist. Data files and unclassified media are excluded.
use vstd::prelude::*;

use crate::text::{
    ascii_lower, ascii_lowercase, ascii_lowercase_chars, chars_equal_suffix, chars_of, line_ranges,
    string_of_range, text_lines,
};

verus! {

/// File-name extensions of source files, one per line, lower case, with the
/// leading dot. Lines that are empty or start with `#` are ignored.
pub const EXTENSION_TABLE: &'static str =
    "# Programming
.rs
.c
.h
.h.in
.cc
.cpp
.cxx
.c++
.hh
.hpp
.hxx
.h++
.inl
.ino
.m
.mm
.swift
.kt
.kts
.java
.scala
.sc
.groovy
.gradle
.clj
.cljs
.cljc
.go
.py
.pyi
.pyw
.pyx
.pxd
.rb
.rake
.gemspec
.php
.phtml
.pl
.pm
.pod
.raku
.rakumod
.lua
.js
.mjs
.cjs
.jsx
.ts
.tsx
.mts
.cts
.vue
.svelte
.astro
.dart
.ex
.exs
.erl
.hrl
.hs
.lhs
.elm
.ml
.mli
.fs
.fsi
.fsx
.cs
.csx
.vb
.vbs
.bas
.ps1
.psm1
.psd1
.sh
.bash
.zsh
.fish
.ksh
.bats
.awk
.bat
.cmd
.r
.jl
.nim
.zig
.v
.sv
.svh
.vhd
.vhdl
.asm
.nasm
.s
.f
.f90
.f95
.for
.pas
.pp
.d
.cr
.coffee
.purs
.re
.rei
.res
.resi
.idr
.agda
.lean
.thy
.sml
.sig
.rkt
.scm
.ss
.lisp
.lsp
.el
.cl
.fnl
.hx
.tcl
.vala
.cmake
.mk
.mak
.mojo
.sol
.move
.cairo
.gleam
.odin
.wgsl
.glsl
.vert
.frag
.hlsl
.metal
.cu
.cuh
.nix
.dhall
.tf
.hcl
.bzl
.star
.jsonnet
.thrift
.gd
.qml
.ada
.adb
.ads
.cob
.cbl
.m4
.applescript
.ahk
.xsl
.xslt
.vim
.dockerfile
.ipynb
# Markup
.html
.htm
.xhtml
.css
.scss
.sass
.less
.styl
.pug
.haml
.slim
.hbs
.handlebars
.mustache
.jinja
.j2
.twig
.liquid
.njk
.ejs
.erb
.blade
.blade.php
.tex
.ltx
.sty
.cls
.bib
# Prose
.md
.markdown
.mdx
.mdown
.rst
.adoc
.asciidoc
.org
.textile
.wiki
";

/// Whole file names of source files, one per line, lower case. Lines that
/// are empty or start with `#` are ignored.
pub const FILENAME_TABLE: &'static str =
    "# Build and container files
dockerfile
containerfile
makefile
gnumakefile
cmakelists.txt
meson.build
rakefile
gemfile
guardfile
podfile
fastfile
brewfile
vagrantfile
jenkinsfile
justfile
build
build.bazel
workspace
workspace.bazel
tiltfile
snakefile
sconstruct
sconscript
pkgbuild
apkbuild
# Shell and editor configuration
.bashrc
.bash_profile
.zshrc
.profile
.vimrc
.gvimrc
.emacs
";

/// A line of a table that names an entry: not empty and not a `#` comment.
pub open spec fn is_table_entry(l: Seq<char>) -> bool {
    l.len() > 0 && l[0] != '#'
}

/// The entries of a table text, in order.
pub open spec fn table_entries(raw: Seq<char>) -> Seq<Seq<char>> {
    text_lines(raw).filter(|l: Seq<char>| is_table_entry(l))
}

/// The character sequences of `v`.
pub open spec fn string_views(v: Seq<String>) -> Seq<Seq<char>> {
    v.map_values(|s: String| s@)
}

/// Whether `c` separates path components (`/` or `\`).
pub open spec fn is_path_separator(c: char) -> bool {
    c == '/' || c == '\\'
}

/// The last component of `path`: what follows its last separator.
pub open spec fn file_name(path: Seq<char>) -> Seq<char>
    decreases path.len(),
{
    if path.len() == 0 || is_path_separator(path.last()) {
        seq![]
    } else {
        file_name(path.drop_last()).push(path.last())
    }
}

/// Whether a lower-case file name is a source file name: it is in the
/// table of file names, or a suffix that starts at one of its dots is in the
/// table of extensions.
pub open spec fn is_source_name(
    name: Seq<char>,
    extensions: Seq<Seq<char>>,
    filenames: Seq<Seq<char>>,
) -> bool {
    ||| filenames.contains(name)
    ||| exists|i: int|
        0 <= i < name.len() && name[i] == '.' && #[trigger] extensions.contains(name.skip(i))
}

/// A lower-case file name is a source name when the whole name is in the
/// table of file names, or when a suffix that starts at one of its dots is in
/// the table of extensions; and only then: a part of the name before a dot
/// is never looked up.
pub proof fn law_source_name_lookup(
    name: Seq<char>,
    extensions: Seq<Seq<char>>,
    filenames: Seq<Seq<char>>,
)
    ensures
        filenames.contains(name) ==> is_source_name(name, extensions, filenames),
        forall|i: int|
            0 <= i < name.len() && name[i] == '.' && #[trigger] extensions.contains(name.skip(i))
                ==> is_source_name(name, extensions, filenames),
        !filenames.contains(name) && (forall|i: int|
            0 <= i < name.len() && name[i] == '.' ==> !#[trigger] extensions.contains(name.skip(i)))
            ==> !is_source_name(name, extensions, filenames),
{
}

/// Whether `path` names a source file, against the given tables; file names
/// are compared in ASCII lower case.
pub open spec fn path_is_source(
    path: Seq<char>,
    extensions: Seq<Seq<char>>,
    filenames: Seq<Seq<char>>,
) -> bool {
    is_source_name(ascii_lowercase(file_name(path)), extensions, filenames)
}

/// The last component of a path that ends in `name`, after a separator, is
/// `name`, when `name` holds no separator.
proof fn lemma_file_name_after_separator(dir: Seq<char>, sep: char, name: Seq<char>)
    requires
        is_path_separator(sep),
        forall|i: int| 0 <= i < name.len() ==> !is_path_separator(#[trigger] name[i]),
    ensures
        file_name(dir.push(sep) + name) == name,
    decreases name.len(),
{
    if name.len() == 0 {
        assert(dir.push(sep) + name =~= dir.push(sep));
    } else {
        let p = dir.push(sep) + name;
        assert(p.drop_last() =~= dir.push(sep) + name.drop_last());
        assert(!is_path_separator(name[name.len() - 1]));
        lemma_file_name_after_separator(dir, sep, name.drop_last());
        assert(name.drop_last().push(name.last()) =~= name);
    }
}

/// Whether a path is source depends on its last component alone: the
/// directories before it do not matter.
pub proof fn law_directories_do_not_matter(
    dir: Seq<char>,
    sep: char,
    name: Seq<char>,
    extensions: Seq<Seq<char>>,
    filenames: Seq<Seq<char>>,
)
    requires
        is_path_separator(sep),
        forall|i: int| 0 <= i < name.len() ==> !is_path_separator(#[trigger] name[i]),
    ensures
        path_is_source(dir.push(sep) + name, extensions, filenames) == path_is_source(
            name,
            extensions,
            filenames,
        ),
{
    lemma_file_name_after_separator(dir, sep, name);
    lemma_file_name_without_separator(name);
}

/// A path without separators is its own last component.
proof fn lemma_file_name_without_separator(name: Seq<char>)
    requires
        forall|i: int| 0 <= i < name.len() ==> !is_path_separator(#[trigger] name[i]),
    ensures
        file_name(name) == name,
    decreases name.len(),
{
    if name.len() > 0 {
        assert(!is_path_separator(name[name.len() - 1]));
        lemma_file_name_without_separator(name.drop_last());
        assert(name.drop_last().push(name.last()) =~= name);
    }
}

/// ASCII case folding leaves separators where they are.
proof fn lemma_file_name_lowercase(path: Seq<char>)
    ensures
        file_name(ascii_lowercase(path)) == ascii_lowercase(file_name(path)),
    decreases path.len(),
{
    if path.len() > 0 {
        assert(ascii_lowercase(path).drop_last() =~= ascii_lowercase(path.drop_last()));
        lemma_file_name_lowercase(path.drop_last());
        if !is_path_separator(path.last()) {
            assert(ascii_lowercase(file_name(path.drop_last()).push(path.last())) =~= ascii_lowercase(
                file_name(path.drop_last()),
            ).push(ascii_lower(path.last())));
        }
    } else {
        assert(ascii_lowercase(path) =~= path);
        assert(ascii_lowercase(seq![]) =~= Seq::<char>::empty());
    }
}

/// Whether a path is source does not depend on the case of its ASCII
/// letters.
pub proof fn law_case_does_not_matter(
    path: Seq<char>,
    extensions: Seq<Seq<char>>,
    filenames: Seq<Seq<char>>,
)
    ensures
        path_is_source(ascii_lowercase(path), extensions, filenames) == path_is_source(
            path,
            extensions,
            filenames,
        ),
{
    lemma_file_name_lowercase(path);
    let n = file_name(path);
    assert(ascii_lowercase(ascii_lowercase(n)) =~= ascii_lowercase(n));
}

/// Two paths that differ only in the case of their ASCII letters are both
/// source paths or neither is.
pub proof fn law_case_insensitive(
    path: Seq<char>,
    other: Seq<char>,
    extensions: Seq<Seq<char>>,
    filenames: Seq<Seq<char>>,
)
    requires
        ascii_lowercase(path) == ascii_lowercase(other),
    ensures
        path_is_source(path, extensions, filenames) == path_is_source(other, extensions, filenames),
{
    law_case_does_not_matter(path, extensions, filenames);
    law_case_does_not_matter(other, extensions, filenames);
}

/// Whether `path` names a source file, against the built-in tables.
pub open spec fn is_source(path: Seq<char>) -> bool {
    path_is_source(path, table_entries(EXTENSION_TABLE@), table_entries(FILENAME_TABLE@))
}

/// The entries of a table text: its lines that are neither empty nor `#`
/// comments, in order.
pub fn load(raw: &str) -> (table: Vec<String>)
    ensures
        string_views(table@) == table_entries(raw@),
{
    let cs = chars_of(raw);
    let ranges = line_ranges(&cs);
    let ghost lines = text_lines(cs@);
    let ghost pred = |l: Seq<char>| is_table_entry(l);
    let mut table: Vec<String> = Vec::new();
    let n = ranges.len();
    for k in 0..n
        invariant
            n == ranges@.len(),
            n == lines.len(),
            lines == text_lines(cs@),
            cs@ == raw@,
            pred == (|l: Seq<char>| is_table_entry(l)),
            forall|j: int| 0 <= j < n ==> #[trigger] ranges@[j].0 <= ranges@[j].1 <= cs@.len(),
            forall|j: int|
                0 <= j < n ==> #[trigger] lines[j] == cs@.subrange(
                    ranges@[j].0 as int,
                    ranges@[j].1 as int,
                ),
            string_views(table@) =~= lines.take(k as int).filter(pred),
    {
        let (lo, hi) = ranges[k];
        let ghost line = lines[k as int];
        assert(line == cs@.subrange(lo as int, hi as int));
        assert(lines.take(k + 1).drop_last() =~= lines.take(k as int));
        assert(lines.take(k + 1).last() == line);
        reveal_with_fuel(Seq::<_>::filter, 1);
        if lo < hi && cs[lo] != '#' {
            let entry = string_of_range(&cs, lo, hi);
            table.push(entry);
        }
    }
    assert(lines.take(n as int) =~= lines);
    table
}

/// The built-in table of extensions.
pub fn extensions() -> (table: Vec<String>)
    ensures
        string_views(table@) == table_entries(EXTENSION_TABLE@),
{
    load(EXTENSION_TABLE)
}

/// The built-in table of file names.
pub fn filenames() -> (table: Vec<String>)
    ensures
        string_views(table@) == table_entries(FILENAME_TABLE@),
{
    load(FILENAME_TABLE)
}

/// Whether `table` holds the characters `name[from..]`.
fn table_contains(table: &Vec<String>, name: &Vec<char>, from: usize) -> (r: bool)
    requires
        from <= name@.len(),
    ensures
        r == string_views(table@).contains(name@.skip(from as int)),
{
    let ghost target = name@.skip(from as int);
    assert(target =~= name@.subrange(from as int, name@.len() as int));
    let n = table.len();
    for k in 0..n
        invariant
            n == table@.len(),
            from <= name@.len(),
            target == name@.subrange(from as int, name@.len() as int),
            forall|j: int| 0 <= j < k ==> table@[j]@ != target,
    {
        let entry = chars_of(table[k].as_str());
        if chars_equal_suffix(&entry, name, from) {
            assert(string_views(table@)[k as int] == target);
            return true;
        }
    }
    assert forall|j: int| 0 <= j < string_views(table@).len() implies string_views(table@)[j]
        != target by {
        assert(table@[j]@ != target);
    }
    false
}

/// The position just after the last separator of `cs`, or 0.
fn file_name_start(cs: &Vec<char>) -> (start: usize)
    ensures
        start <= cs@.len(),
        cs@.skip(start as int) == file_name(cs@),
{
    let mut i = cs.len();
    assert(cs@.take(i as int) =~= cs@);
    assert(cs@ + cs@.skip(i as int) =~= cs@);
    while i > 0 && !(cs[i - 1] == '/' || cs[i - 1] == '\\')
        invariant
            i <= cs@.len(),
            file_name(cs@) == file_name(cs@.take(i as int)) + cs@.skip(i as int),
        decreases i,
    {
        assert(cs@.take(i as int).drop_last() =~= cs@.take(i - 1));
        assert(cs@.skip(i - 1) =~= seq![cs@[i - 1]] + cs@.skip(i as int));
        assert(file_name(cs@.take(i as int)) =~= file_name(cs@.take(i - 1)).push(cs@[i - 1]));
        assert(file_name(cs@.take(i - 1)).push(cs@[i - 1]) + cs@.skip(i as int) =~= file_name(
            cs@.take(i - 1),
        ) + cs@.skip(i - 1));
        i = i - 1;
    }
    assert(file_name(cs@.take(i as int)) =~= seq![]);
    assert(seq![] + cs@.skip(i as int) =~= cs@.skip(i as int));
    i
}

/// Whether `path` names a source file against the given tables of
/// extensions and file names.
pub fn classify_path(path: &str, extensions: &Vec<String>, filenames: &Vec<String>) -> (r: bool)
    ensures
        r == path_is_source(path@, string_views(extensions@), string_views(filenames@)),
{
    let cs = chars_of(path);
    let start = file_name_start(&cs);
    let mut name: Vec<char> = Vec::new();
    let n = cs.len();
    for k in start..n
        invariant
            n == cs@.len(),
            start <= n,
            name@ =~= cs@.subrange(start as int, k as int),
    {
        name.push(cs[k]);
    }
    assert(name@ =~= file_name(path@));
    let lower = ascii_lowercase_chars(&name);
    let ghost exts = string_views(extensions@);
    if table_contains(filenames, &lower, 0) {
        assert(lower@.skip(0) =~= lower@);
        return true;
    }
    assert(lower@.skip(0) =~= lower@);
    let len = lower.len();
    for i in 0..len
        invariant
            len == lower@.len(),
            exts == string_views(extensions@),
            lower@ == ascii_lowercase(file_name(path@)),
            forall|j: int|
                0 <= j < i ==> !(lower@[j] == '.' && #[trigger] exts.contains(lower@.skip(j))),
    {
        if lower[i] == '.' && table_contains(extensions, &lower, i) {
            assert(lower@[i as int] == '.' && exts.contains(lower@.skip(i as int)));
            return true;
        }
    }
    assert(!(exists|i: int|
        0 <= i < lower@.len() && lower@[i] == '.' && #[trigger] exts.contains(lower@.skip(i))));
    false
}

/// Whether `path` names a source file: a programming, markup or prose file
/// by its name or extension. Data files and unclassified media are not.
pub fn is_source_path(path: &str) -> (r: bool)
    ensures
        r == is_source(path@),
{
    let exts = extensions();
    let names = filenames();
    classify_path(path, &exts, &names)
}

} // verus!
