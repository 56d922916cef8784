//! File and directory icons: emoji for the jump list, Nerd Font glyphs
//! (from `nerd_font_symbols`) for the explorer.

use vstd::prelude::*;
use crate::text::{chars_of, lowercase, same_chars, split_chars, split_on, unicode_lowercase};
use crate::chrome::Tone;
use crate::entries::{listed, texts};

verus! {

/// The text of each (key, icon) pair of a table.
pub open spec fn table_view(t: Seq<(&str, &str)>) -> Seq<(Seq<char>, Seq<char>)> {
    t.map_values(|p: (&str, &str)| (p.0@, p.1@))
}

/// The icon of the first pair whose key is `k`, if any.
pub open spec fn first_icon(t: Seq<(Seq<char>, Seq<char>)>, k: Seq<char>) -> Option<Seq<char>>
    decreases t.len(),
{
    if t.len() == 0 {
        None
    } else if t[0].0 == k {
        Some(t[0].1)
    } else {
        first_icon(t.drop_first(), k)
    }
}

/// The icon of the first pair of `t` whose key is `k`.
fn find_icon(t: &Vec<(&'static str, &'static str)>, k: &Vec<char>) -> (r: Option<&'static str>)
    ensures
        match r {
            Some(s) => first_icon(table_view(t@), k@) == Some(s@),
            None => first_icon(table_view(t@), k@) is None,
        },
{
    assert(table_view(t@).skip(0) =~= table_view(t@));
    for i in 0..t.len()
        invariant
            first_icon(table_view(t@), k@) == first_icon(table_view(t@).skip(i as int), k@),
    {
        proof {
            let rest = table_view(t@).skip(i as int);
            assert(rest.drop_first() =~= table_view(t@).skip(i + 1));
            assert(rest[0] == (t@[i as int].0@, t@[i as int].1@));
        }
        let e = chars_of(t[i].0);
        if same_chars(&e, k) {
            return Some(t[i].1);
        }
    }
    assert(table_view(t@).skip(t@.len() as int).len() == 0);
    None
}

/// Emoji for directories, by lowercase name.
pub open spec fn emoji_dir_table() -> Seq<(Seq<char>, Seq<char>)> {
    seq![
        ("src"@, "⚡"@),
        ("source"@, "⚡"@),
        ("lib"@, "⚡"@),
        ("test"@, "🧪"@),
        ("tests"@, "🧪"@),
        ("__tests__"@, "🧪"@),
        ("spec"@, "🧪"@),
        ("specs"@, "🧪"@),
        ("docs"@, "📚"@),
        ("doc"@, "📚"@),
        ("documentation"@, "📚"@),
        ("config"@, "🔧"@),
        ("conf"@, "🔧"@),
        (".config"@, "🔧"@),
        ("build"@, "📦"@),
        ("dist"@, "📦"@),
        ("out"@, "📦"@),
        ("output"@, "📦"@),
        ("assets"@, "🎨"@),
        ("static"@, "🎨"@),
        ("public"@, "🎨"@),
        ("media"@, "🎨"@),
        ("scripts"@, "⚙️"@),
        ("bin"@, "⚙️"@),
        ("tools"@, "⚙️"@),
        (".git"@, "🔗"@),
        (".github"@, "🔗"@),
        ("node_modules"@, "📦"@),
        (".vscode"@, "🔧"@),
        (".idea"@, "🔧"@),
        ("target"@, "📦"@),
        ("vendor"@, "📦"@),
        ("pkg"@, "📦"@),
        ("packages"@, "📦"@),
        ("components"@, "🧩"@),
        ("pages"@, "🌐"@),
        ("views"@, "🌐"@),
        ("styles"@, "🎨"@),
        ("css"@, "🎨"@),
        ("images"@, "🖼️"@),
        ("img"@, "🖼️"@),
        ("icons"@, "🖼️"@),
        ("fonts"@, "🔤"@),
        ("hooks"@, "🔌"@),
        ("utils"@, "🔧"@),
        ("helpers"@, "🔧"@),
        ("models"@, "🗄️"@),
        ("schemas"@, "🗄️"@),
        ("api"@, "🔌"@),
        ("routes"@, "🔌"@),
        ("middleware"@, "⚙️"@),
        ("migrations"@, "🗄️"@),
        ("templates"@, "📄"@),
        ("layouts"@, "📄"@),
        ("plugins"@, "🧩"@),
        ("addons"@, "🧩"@),
        ("extensions"@, "🧩"@),
        ("data"@, "🗄️"@),
        ("db"@, "🗄️"@),
        ("database"@, "🗄️"@),
        ("logs"@, "📋"@),
        ("log"@, "📋"@),
        ("tmp"@, "📋"@),
        ("temp"@, "📋"@),
        ("cache"@, "📋"@),
        ("backup"@, "📦"@),
        ("backups"@, "📦"@),
        ("downloads"@, "📥"@),
        ("uploads"@, "📤"@),
        ("i18n"@, "🌐"@),
        ("locales"@, "🌐"@),
        ("lang"@, "🌐"@),
        ("translations"@, "🌐"@),
        ("types"@, "💠"@),
        ("interfaces"@, "💠"@),
        ("services"@, "⚙️"@),
        ("controllers"@, "⚙️"@),
        ("examples"@, "📖"@),
        ("samples"@, "📖"@),
        ("demo"@, "📖"@),
    ]
}

/// Emoji for well-known files, by lowercase file name.
pub open spec fn emoji_name_table() -> Seq<(Seq<char>, Seq<char>)> {
    seq![
        ("makefile"@, "🏗️"@),
        ("gnumakefile"@, "🏗️"@),
        ("justfile"@, "🏗️"@),
        ("dockerfile"@, "🐳"@),
        ("docker-compose.yml"@, "🐳"@),
        ("docker-compose.yaml"@, "🐳"@),
        ("compose.yml"@, "🐳"@),
        ("compose.yaml"@, "🐳"@),
        ("license"@, "📜"@),
        ("licence"@, "📜"@),
        ("license.md"@, "📜"@),
        ("licence.md"@, "📜"@),
        ("readme"@, "📖"@),
        ("readme.md"@, "📖"@),
        ("readme.txt"@, "📖"@),
        ("readme.rst"@, "📖"@),
        ("changelog"@, "📋"@),
        ("changelog.md"@, "📋"@),
        (".gitignore"@, "🚫"@),
        (".gitattributes"@, "🚫"@),
        (".gitmodules"@, "🚫"@),
        (".dockerignore"@, "🚫"@),
        (".editorconfig"@, "🔧"@),
        (".env"@, "🔐"@),
        (".env.local"@, "🔐"@),
        (".env.production"@, "🔐"@),
        (".env.development"@, "🔐"@),
        (".eslintrc"@, "🔧"@),
        (".eslintrc.js"@, "🔧"@),
        (".eslintrc.json"@, "🔧"@),
        (".eslintrc.yml"@, "🔧"@),
        (".prettierrc"@, "🔧"@),
        (".prettierrc.js"@, "🔧"@),
        (".prettierrc.json"@, "🔧"@),
        ("cargo.toml"@, "🦀"@),
        ("cargo.lock"@, "🔒"@),
        ("package.json"@, "📋"@),
        ("package-lock.json"@, "🔒"@),
        ("yarn.lock"@, "🔒"@),
        ("pnpm-lock.yaml"@, "🔒"@),
        ("tsconfig.json"@, "💠"@),
        ("tsconfig.node.json"@, "💠"@),
        ("tsconfig.app.json"@, "💠"@),
        ("go.mod"@, "🔷"@),
        ("go.sum"@, "🔷"@),
        ("gemfile"@, "💎"@),
        ("gemfile.lock"@, "💎"@),
        ("rakefile"@, "💎"@),
        ("requirements.txt"@, "🐍"@),
        ("pipfile"@, "🐍"@),
        ("pipfile.lock"@, "🐍"@),
        ("setup.py"@, "🐍"@),
        ("setup.cfg"@, "🐍"@),
        ("pyproject.toml"@, "🐍"@),
        ("webpack.config.js"@, "📦"@),
        ("webpack.config.ts"@, "📦"@),
        ("vite.config.js"@, "⚡"@),
        ("vite.config.ts"@, "⚡"@),
        ("tailwind.config.js"@, "🎨"@),
        ("tailwind.config.ts"@, "🎨"@),
        ("next.config.js"@, "🌐"@),
        ("next.config.mjs"@, "🌐"@),
        ("next.config.ts"@, "🌐"@),
        ("nuxt.config.js"@, "🌐"@),
        ("nuxt.config.ts"@, "🌐"@),
        ("jest.config.js"@, "🧪"@),
        ("jest.config.ts"@, "🧪"@),
        (".travis.yml"@, "⚙️"@),
        ("netlify.toml"@, "🌐"@),
        ("vercel.json"@, "🌐"@),
        ("flake.nix"@, "❄️"@),
        ("flake.lock"@, "❄️"@),
        ("shell.nix"@, "❄️"@),
        ("default.nix"@, "❄️"@),
        ("cmakelists.txt"@, "🏗️"@),
        ("build.gradle"@, "🏗️"@),
        ("build.gradle.kts"@, "🏗️"@),
        ("settings.gradle"@, "🏗️"@),
        ("pom.xml"@, "☕"@),
        ("procfile"@, "⚙️"@),
    ]
}

/// Emoji for files, by lowercase extension.
pub open spec fn emoji_ext_table() -> Seq<(Seq<char>, Seq<char>)> {
    seq![
        ("rs"@, "🦀"@),
        ("py"@, "🐍"@),
        ("pyw"@, "🐍"@),
        ("pyx"@, "🐍"@),
        ("pxd"@, "🐍"@),
        ("pyi"@, "🐍"@),
        ("js"@, "⚡"@),
        ("mjs"@, "⚡"@),
        ("cjs"@, "⚡"@),
        ("ts"@, "💠"@),
        ("mts"@, "💠"@),
        ("cts"@, "💠"@),
        ("jsx"@, "⚛️"@),
        ("tsx"@, "⚛️"@),
        ("go"@, "🔷"@),
        ("c"@, "⚙️"@),
        ("h"@, "⚙️"@),
        ("cpp"@, "⚙️"@),
        ("cc"@, "⚙️"@),
        ("cxx"@, "⚙️"@),
        ("c++"@, "⚙️"@),
        ("hpp"@, "⚙️"@),
        ("hxx"@, "⚙️"@),
        ("h++"@, "⚙️"@),
        ("cs"@, "💠"@),
        ("csx"@, "💠"@),
        ("java"@, "☕"@),
        ("kt"@, "💠"@),
        ("kts"@, "💠"@),
        ("swift"@, "🔶"@),
        ("rb"@, "💎"@),
        ("erb"@, "💎"@),
        ("php"@, "🐘"@),
        ("lua"@, "🌙"@),
        ("zig"@, "⚡"@),
        ("nim"@, "👑"@),
        ("nims"@, "👑"@),
        ("hs"@, "⚗️"@),
        ("lhs"@, "⚗️"@),
        ("ex"@, "⚗️"@),
        ("exs"@, "⚗️"@),
        ("heex"@, "⚗️"@),
        ("leex"@, "⚗️"@),
        ("erl"@, "⚗️"@),
        ("hrl"@, "⚗️"@),
        ("r"@, "📊"@),
        ("rmd"@, "📊"@),
        ("rdata"@, "📊"@),
        ("rds"@, "📊"@),
        ("jl"@, "📊"@),
        ("dart"@, "🎯"@),
        ("scala"@, "🔴"@),
        ("sc"@, "🔴"@),
        ("sbt"@, "🔴"@),
        ("clj"@, "🔮"@),
        ("cljs"@, "🔮"@),
        ("cljc"@, "🔮"@),
        ("edn"@, "🔮"@),
        ("ml"@, "🔶"@),
        ("mli"@, "🔶"@),
        ("fs"@, "💠"@),
        ("fsx"@, "💠"@),
        ("fsi"@, "💠"@),
        ("pl"@, "🐪"@),
        ("pm"@, "🐪"@),
        ("pod"@, "🐪"@),
        ("asm"@, "⚙️"@),
        ("s"@, "⚙️"@),
        ("v"@, "⚙️"@),
        ("vh"@, "⚙️"@),
        ("sv"@, "⚙️"@),
        ("svh"@, "⚙️"@),
        ("sh"@, "🐚"@),
        ("bash"@, "🐚"@),
        ("zsh"@, "🐚"@),
        ("fish"@, "🐚"@),
        ("ps1"@, "🐚"@),
        ("psm1"@, "🐚"@),
        ("psd1"@, "🐚"@),
        ("bat"@, "🐚"@),
        ("cmd"@, "🐚"@),
        ("html"@, "🌐"@),
        ("htm"@, "🌐"@),
        ("xhtml"@, "🌐"@),
        ("css"@, "🎨"@),
        ("scss"@, "🎨"@),
        ("sass"@, "🎨"@),
        ("less"@, "🎨"@),
        ("vue"@, "💚"@),
        ("svelte"@, "🔥"@),
        ("astro"@, "🚀"@),
        ("json"@, "📋"@),
        ("jsonc"@, "📋"@),
        ("json5"@, "📋"@),
        ("yaml"@, "📋"@),
        ("yml"@, "📋"@),
        ("toml"@, "📋"@),
        ("xml"@, "📄"@),
        ("xsl"@, "📄"@),
        ("xslt"@, "📄"@),
        ("csv"@, "📊"@),
        ("tsv"@, "📊"@),
        ("ini"@, "🔧"@),
        ("cfg"@, "🔧"@),
        ("conf"@, "🔧"@),
        ("sql"@, "🗄️"@),
        ("sqlite"@, "🗄️"@),
        ("db"@, "🗄️"@),
        ("graphql"@, "🔮"@),
        ("gql"@, "🔮"@),
        ("proto"@, "📋"@),
        ("protobuf"@, "📋"@),
        ("env"@, "🔐"@),
        ("md"@, "📝"@),
        ("mdx"@, "📝"@),
        ("rst"@, "📝"@),
        ("txt"@, "📄"@),
        ("pdf"@, "📕"@),
        ("doc"@, "📄"@),
        ("docx"@, "📄"@),
        ("xls"@, "📗"@),
        ("xlsx"@, "📗"@),
        ("ppt"@, "📙"@),
        ("pptx"@, "📙"@),
        ("tex"@, "📝"@),
        ("latex"@, "📝"@),
        ("bib"@, "📝"@),
        ("org"@, "📝"@),
        ("png"@, "🖼️"@),
        ("jpg"@, "🖼️"@),
        ("jpeg"@, "🖼️"@),
        ("gif"@, "🖼️"@),
        ("bmp"@, "🖼️"@),
        ("ico"@, "🖼️"@),
        ("icns"@, "🖼️"@),
        ("svg"@, "🖼️"@),
        ("webp"@, "🖼️"@),
        ("avif"@, "🖼️"@),
        ("heif"@, "🖼️"@),
        ("heic"@, "🖼️"@),
        ("psd"@, "🎨"@),
        ("ai"@, "🎨"@),
        ("sketch"@, "🎨"@),
        ("fig"@, "🎨"@),
        ("figma"@, "🎨"@),
        ("blend"@, "🎮"@),
        ("3ds"@, "🎮"@),
        ("fbx"@, "🎮"@),
        ("stl"@, "🎮"@),
        ("mp3"@, "🎵"@),
        ("wav"@, "🎵"@),
        ("wave"@, "🎵"@),
        ("flac"@, "🎵"@),
        ("aac"@, "🎵"@),
        ("m4a"@, "🎵"@),
        ("ogg"@, "🎵"@),
        ("oga"@, "🎵"@),
        ("opus"@, "🎵"@),
        ("wma"@, "🎵"@),
        ("mid"@, "🎵"@),
        ("midi"@, "🎵"@),
        ("mp4"@, "🎬"@),
        ("m4v"@, "🎬"@),
        ("mkv"@, "🎬"@),
        ("avi"@, "🎬"@),
        ("mov"@, "🎬"@),
        ("wmv"@, "🎬"@),
        ("webm"@, "🎬"@),
        ("flv"@, "🎬"@),
        ("zip"@, "📦"@),
        ("tar"@, "📦"@),
        ("gz"@, "📦"@),
        ("tgz"@, "📦"@),
        ("bz2"@, "📦"@),
        ("tbz2"@, "📦"@),
        ("xz"@, "📦"@),
        ("txz"@, "📦"@),
        ("7z"@, "📦"@),
        ("rar"@, "📦"@),
        ("zst"@, "📦"@),
        ("zstd"@, "📦"@),
        ("deb"@, "📦"@),
        ("rpm"@, "📦"@),
        ("dmg"@, "📦"@),
        ("iso"@, "📦"@),
        ("pkg"@, "📦"@),
        ("apk"@, "📦"@),
        ("msi"@, "📦"@),
        ("bin"@, "⚙️"@),
        ("exe"@, "⚙️"@),
        ("dll"@, "🔌"@),
        ("so"@, "🔌"@),
        ("dylib"@, "🔌"@),
        ("o"@, "⚙️"@),
        ("a"@, "⚙️"@),
        ("lib"@, "⚙️"@),
        ("wasm"@, "🧩"@),
        ("wat"@, "🧩"@),
        ("appimage"@, "📦"@),
        ("snap"@, "📦"@),
        ("flatpak"@, "📦"@),
        ("ttf"@, "🔤"@),
        ("otf"@, "🔤"@),
        ("woff"@, "🔤"@),
        ("woff2"@, "🔤"@),
        ("eot"@, "🔤"@),
        ("key"@, "🔐"@),
        ("pem"@, "🔐"@),
        ("pub"@, "🔐"@),
        ("gpg"@, "🔐"@),
        ("pgp"@, "🔐"@),
        ("crt"@, "🔐"@),
        ("cer"@, "🔐"@),
        ("ca"@, "🔐"@),
        ("p12"@, "🔐"@),
        ("pfx"@, "🔐"@),
        ("jks"@, "🔐"@),
        ("sig"@, "🔐"@),
        ("asc"@, "🔐"@),
        ("nix"@, "❄️"@),
        ("lock"@, "🔒"@),
        ("log"@, "📋"@),
        ("bak"@, "📋"@),
        ("swp"@, "📋"@),
        ("swo"@, "📋"@),
        ("tmp"@, "📋"@),
        ("patch"@, "📝"@),
        ("diff"@, "📝"@),
        ("map"@, "📋"@),
    ]
}

/// The directory emoji table.
fn emoji_dirs() -> (r: Vec<(&'static str, &'static str)>)
    ensures
        table_view(r@) == emoji_dir_table(),
{
    let r = vec![
        ("src", "⚡"),
        ("source", "⚡"),
        ("lib", "⚡"),
        ("test", "🧪"),
        ("tests", "🧪"),
        ("__tests__", "🧪"),
        ("spec", "🧪"),
        ("specs", "🧪"),
        ("docs", "📚"),
        ("doc", "📚"),
        ("documentation", "📚"),
        ("config", "🔧"),
        ("conf", "🔧"),
        (".config", "🔧"),
        ("build", "📦"),
        ("dist", "📦"),
        ("out", "📦"),
        ("output", "📦"),
        ("assets", "🎨"),
        ("static", "🎨"),
        ("public", "🎨"),
        ("media", "🎨"),
        ("scripts", "⚙️"),
        ("bin", "⚙️"),
        ("tools", "⚙️"),
        (".git", "🔗"),
        (".github", "🔗"),
        ("node_modules", "📦"),
        (".vscode", "🔧"),
        (".idea", "🔧"),
        ("target", "📦"),
        ("vendor", "📦"),
        ("pkg", "📦"),
        ("packages", "📦"),
        ("components", "🧩"),
        ("pages", "🌐"),
        ("views", "🌐"),
        ("styles", "🎨"),
        ("css", "🎨"),
        ("images", "🖼️"),
        ("img", "🖼️"),
        ("icons", "🖼️"),
        ("fonts", "🔤"),
        ("hooks", "🔌"),
        ("utils", "🔧"),
        ("helpers", "🔧"),
        ("models", "🗄️"),
        ("schemas", "🗄️"),
        ("api", "🔌"),
        ("routes", "🔌"),
        ("middleware", "⚙️"),
        ("migrations", "🗄️"),
        ("templates", "📄"),
        ("layouts", "📄"),
        ("plugins", "🧩"),
        ("addons", "🧩"),
        ("extensions", "🧩"),
        ("data", "🗄️"),
        ("db", "🗄️"),
        ("database", "🗄️"),
        ("logs", "📋"),
        ("log", "📋"),
        ("tmp", "📋"),
        ("temp", "📋"),
        ("cache", "📋"),
        ("backup", "📦"),
        ("backups", "📦"),
        ("downloads", "📥"),
        ("uploads", "📤"),
        ("i18n", "🌐"),
        ("locales", "🌐"),
        ("lang", "🌐"),
        ("translations", "🌐"),
        ("types", "💠"),
        ("interfaces", "💠"),
        ("services", "⚙️"),
        ("controllers", "⚙️"),
        ("examples", "📖"),
        ("samples", "📖"),
        ("demo", "📖"),
    ];
    assert(table_view(r@) =~= emoji_dir_table());
    r
}

/// The file-name emoji table.
fn emoji_names() -> (r: Vec<(&'static str, &'static str)>)
    ensures
        table_view(r@) == emoji_name_table(),
{
    let r = vec![
        ("makefile", "🏗️"),
        ("gnumakefile", "🏗️"),
        ("justfile", "🏗️"),
        ("dockerfile", "🐳"),
        ("docker-compose.yml", "🐳"),
        ("docker-compose.yaml", "🐳"),
        ("compose.yml", "🐳"),
        ("compose.yaml", "🐳"),
        ("license", "📜"),
        ("licence", "📜"),
        ("license.md", "📜"),
        ("licence.md", "📜"),
        ("readme", "📖"),
        ("readme.md", "📖"),
        ("readme.txt", "📖"),
        ("readme.rst", "📖"),
        ("changelog", "📋"),
        ("changelog.md", "📋"),
        (".gitignore", "🚫"),
        (".gitattributes", "🚫"),
        (".gitmodules", "🚫"),
        (".dockerignore", "🚫"),
        (".editorconfig", "🔧"),
        (".env", "🔐"),
        (".env.local", "🔐"),
        (".env.production", "🔐"),
        (".env.development", "🔐"),
        (".eslintrc", "🔧"),
        (".eslintrc.js", "🔧"),
        (".eslintrc.json", "🔧"),
        (".eslintrc.yml", "🔧"),
        (".prettierrc", "🔧"),
        (".prettierrc.js", "🔧"),
        (".prettierrc.json", "🔧"),
        ("cargo.toml", "🦀"),
        ("cargo.lock", "🔒"),
        ("package.json", "📋"),
        ("package-lock.json", "🔒"),
        ("yarn.lock", "🔒"),
        ("pnpm-lock.yaml", "🔒"),
        ("tsconfig.json", "💠"),
        ("tsconfig.node.json", "💠"),
        ("tsconfig.app.json", "💠"),
        ("go.mod", "🔷"),
        ("go.sum", "🔷"),
        ("gemfile", "💎"),
        ("gemfile.lock", "💎"),
        ("rakefile", "💎"),
        ("requirements.txt", "🐍"),
        ("pipfile", "🐍"),
        ("pipfile.lock", "🐍"),
        ("setup.py", "🐍"),
        ("setup.cfg", "🐍"),
        ("pyproject.toml", "🐍"),
        ("webpack.config.js", "📦"),
        ("webpack.config.ts", "📦"),
        ("vite.config.js", "⚡"),
        ("vite.config.ts", "⚡"),
        ("tailwind.config.js", "🎨"),
        ("tailwind.config.ts", "🎨"),
        ("next.config.js", "🌐"),
        ("next.config.mjs", "🌐"),
        ("next.config.ts", "🌐"),
        ("nuxt.config.js", "🌐"),
        ("nuxt.config.ts", "🌐"),
        ("jest.config.js", "🧪"),
        ("jest.config.ts", "🧪"),
        (".travis.yml", "⚙️"),
        ("netlify.toml", "🌐"),
        ("vercel.json", "🌐"),
        ("flake.nix", "❄️"),
        ("flake.lock", "❄️"),
        ("shell.nix", "❄️"),
        ("default.nix", "❄️"),
        ("cmakelists.txt", "🏗️"),
        ("build.gradle", "🏗️"),
        ("build.gradle.kts", "🏗️"),
        ("settings.gradle", "🏗️"),
        ("pom.xml", "☕"),
        ("procfile", "⚙️"),
    ];
    assert(table_view(r@) =~= emoji_name_table());
    r
}

/// The extension emoji table.
fn emoji_exts() -> (r: Vec<(&'static str, &'static str)>)
    ensures
        table_view(r@) == emoji_ext_table(),
{
    let r = vec![
        ("rs", "🦀"),
        ("py", "🐍"),
        ("pyw", "🐍"),
        ("pyx", "🐍"),
        ("pxd", "🐍"),
        ("pyi", "🐍"),
        ("js", "⚡"),
        ("mjs", "⚡"),
        ("cjs", "⚡"),
        ("ts", "💠"),
        ("mts", "💠"),
        ("cts", "💠"),
        ("jsx", "⚛️"),
        ("tsx", "⚛️"),
        ("go", "🔷"),
        ("c", "⚙️"),
        ("h", "⚙️"),
        ("cpp", "⚙️"),
        ("cc", "⚙️"),
        ("cxx", "⚙️"),
        ("c++", "⚙️"),
        ("hpp", "⚙️"),
        ("hxx", "⚙️"),
        ("h++", "⚙️"),
        ("cs", "💠"),
        ("csx", "💠"),
        ("java", "☕"),
        ("kt", "💠"),
        ("kts", "💠"),
        ("swift", "🔶"),
        ("rb", "💎"),
        ("erb", "💎"),
        ("php", "🐘"),
        ("lua", "🌙"),
        ("zig", "⚡"),
        ("nim", "👑"),
        ("nims", "👑"),
        ("hs", "⚗️"),
        ("lhs", "⚗️"),
        ("ex", "⚗️"),
        ("exs", "⚗️"),
        ("heex", "⚗️"),
        ("leex", "⚗️"),
        ("erl", "⚗️"),
        ("hrl", "⚗️"),
        ("r", "📊"),
        ("rmd", "📊"),
        ("rdata", "📊"),
        ("rds", "📊"),
        ("jl", "📊"),
        ("dart", "🎯"),
        ("scala", "🔴"),
        ("sc", "🔴"),
        ("sbt", "🔴"),
        ("clj", "🔮"),
        ("cljs", "🔮"),
        ("cljc", "🔮"),
        ("edn", "🔮"),
        ("ml", "🔶"),
        ("mli", "🔶"),
        ("fs", "💠"),
        ("fsx", "💠"),
        ("fsi", "💠"),
        ("pl", "🐪"),
        ("pm", "🐪"),
        ("pod", "🐪"),
        ("asm", "⚙️"),
        ("s", "⚙️"),
        ("v", "⚙️"),
        ("vh", "⚙️"),
        ("sv", "⚙️"),
        ("svh", "⚙️"),
        ("sh", "🐚"),
        ("bash", "🐚"),
        ("zsh", "🐚"),
        ("fish", "🐚"),
        ("ps1", "🐚"),
        ("psm1", "🐚"),
        ("psd1", "🐚"),
        ("bat", "🐚"),
        ("cmd", "🐚"),
        ("html", "🌐"),
        ("htm", "🌐"),
        ("xhtml", "🌐"),
        ("css", "🎨"),
        ("scss", "🎨"),
        ("sass", "🎨"),
        ("less", "🎨"),
        ("vue", "💚"),
        ("svelte", "🔥"),
        ("astro", "🚀"),
        ("json", "📋"),
        ("jsonc", "📋"),
        ("json5", "📋"),
        ("yaml", "📋"),
        ("yml", "📋"),
        ("toml", "📋"),
        ("xml", "📄"),
        ("xsl", "📄"),
        ("xslt", "📄"),
        ("csv", "📊"),
        ("tsv", "📊"),
        ("ini", "🔧"),
        ("cfg", "🔧"),
        ("conf", "🔧"),
        ("sql", "🗄️"),
        ("sqlite", "🗄️"),
        ("db", "🗄️"),
        ("graphql", "🔮"),
        ("gql", "🔮"),
        ("proto", "📋"),
        ("protobuf", "📋"),
        ("env", "🔐"),
        ("md", "📝"),
        ("mdx", "📝"),
        ("rst", "📝"),
        ("txt", "📄"),
        ("pdf", "📕"),
        ("doc", "📄"),
        ("docx", "📄"),
        ("xls", "📗"),
        ("xlsx", "📗"),
        ("ppt", "📙"),
        ("pptx", "📙"),
        ("tex", "📝"),
        ("latex", "📝"),
        ("bib", "📝"),
        ("org", "📝"),
        ("png", "🖼️"),
        ("jpg", "🖼️"),
        ("jpeg", "🖼️"),
        ("gif", "🖼️"),
        ("bmp", "🖼️"),
        ("ico", "🖼️"),
        ("icns", "🖼️"),
        ("svg", "🖼️"),
        ("webp", "🖼️"),
        ("avif", "🖼️"),
        ("heif", "🖼️"),
        ("heic", "🖼️"),
        ("psd", "🎨"),
        ("ai", "🎨"),
        ("sketch", "🎨"),
        ("fig", "🎨"),
        ("figma", "🎨"),
        ("blend", "🎮"),
        ("3ds", "🎮"),
        ("fbx", "🎮"),
        ("stl", "🎮"),
        ("mp3", "🎵"),
        ("wav", "🎵"),
        ("wave", "🎵"),
        ("flac", "🎵"),
        ("aac", "🎵"),
        ("m4a", "🎵"),
        ("ogg", "🎵"),
        ("oga", "🎵"),
        ("opus", "🎵"),
        ("wma", "🎵"),
        ("mid", "🎵"),
        ("midi", "🎵"),
        ("mp4", "🎬"),
        ("m4v", "🎬"),
        ("mkv", "🎬"),
        ("avi", "🎬"),
        ("mov", "🎬"),
        ("wmv", "🎬"),
        ("webm", "🎬"),
        ("flv", "🎬"),
        ("zip", "📦"),
        ("tar", "📦"),
        ("gz", "📦"),
        ("tgz", "📦"),
        ("bz2", "📦"),
        ("tbz2", "📦"),
        ("xz", "📦"),
        ("txz", "📦"),
        ("7z", "📦"),
        ("rar", "📦"),
        ("zst", "📦"),
        ("zstd", "📦"),
        ("deb", "📦"),
        ("rpm", "📦"),
        ("dmg", "📦"),
        ("iso", "📦"),
        ("pkg", "📦"),
        ("apk", "📦"),
        ("msi", "📦"),
        ("bin", "⚙️"),
        ("exe", "⚙️"),
        ("dll", "🔌"),
        ("so", "🔌"),
        ("dylib", "🔌"),
        ("o", "⚙️"),
        ("a", "⚙️"),
        ("lib", "⚙️"),
        ("wasm", "🧩"),
        ("wat", "🧩"),
        ("appimage", "📦"),
        ("snap", "📦"),
        ("flatpak", "📦"),
        ("ttf", "🔤"),
        ("otf", "🔤"),
        ("woff", "🔤"),
        ("woff2", "🔤"),
        ("eot", "🔤"),
        ("key", "🔐"),
        ("pem", "🔐"),
        ("pub", "🔐"),
        ("gpg", "🔐"),
        ("pgp", "🔐"),
        ("crt", "🔐"),
        ("cer", "🔐"),
        ("ca", "🔐"),
        ("p12", "🔐"),
        ("pfx", "🔐"),
        ("jks", "🔐"),
        ("sig", "🔐"),
        ("asc", "🔐"),
        ("nix", "❄️"),
        ("lock", "🔒"),
        ("log", "📋"),
        ("bak", "📋"),
        ("swp", "📋"),
        ("swo", "📋"),
        ("tmp", "📋"),
        ("patch", "📝"),
        ("diff", "📝"),
        ("map", "📋"),
    ];
    assert(table_view(r@) =~= emoji_ext_table());
    r
}


// ── Nerd Font glyphs ───────────────────────────────────────────────────────

/// Whether the explorer draws Nerd Font glyphs (else ASCII fallbacks).
pub const USE_NERD: bool = true;

/// The glyph, or its fallback when Nerd Font glyphs are off.
pub open spec fn pick_spec(nerd: Seq<char>, fallback: Seq<char>) -> Seq<char> {
    if USE_NERD { nerd } else { fallback }
}

/// The glyph, or its fallback when Nerd Font glyphs are off.
pub fn pick(nerd: &'static str, fallback: &'static str) -> (r: &'static str)
    ensures
        r@ == pick_spec(nerd@, fallback@),
{
    if USE_NERD { nerd } else { fallback }
}

/// `nerd_font_symbols::seti::CUSTOM_FOLDER`. Trusted: the constant is the
/// single character U+E5FF in the crate's source.
#[verifier::external_body]
fn glyph_custom_folder() -> (r: &'static str)
    ensures
        r@ == seq!['\u{e5ff}'],
{
    nerd_font_symbols::seti::CUSTOM_FOLDER
}

/// `nerd_font_symbols::seti::CUSTOM_HOME`. Trusted: the constant is the
/// single character U+E617 in the crate's source.
#[verifier::external_body]
fn glyph_custom_home() -> (r: &'static str)
    ensures
        r@ == seq!['\u{e617}'],
{
    nerd_font_symbols::seti::CUSTOM_HOME
}

/// `nerd_font_symbols::seti::CUSTOM_FOLDER_OPEN`. Trusted: the constant is the
/// single character U+E5FE in the crate's source.
#[verifier::external_body]
fn glyph_custom_folder_open() -> (r: &'static str)
    ensures
        r@ == seq!['\u{e5fe}'],
{
    nerd_font_symbols::seti::CUSTOM_FOLDER_OPEN
}

/// `nerd_font_symbols::seti::CUSTOM_DEFAULT`. Trusted: the constant is the
/// single character U+E612 in the crate's source.
#[verifier::external_body]
fn glyph_custom_default() -> (r: &'static str)
    ensures
        r@ == seq!['\u{e612}'],
{
    nerd_font_symbols::seti::CUSTOM_DEFAULT
}

/// `nerd_font_symbols::seti::CUSTOM_FOLDER_GIT`. Trusted: the constant is the
/// single character U+E5FB in the crate's source.
#[verifier::external_body]
fn glyph_custom_folder_git() -> (r: &'static str)
    ensures
        r@ == seq!['\u{e5fb}'],
{
    nerd_font_symbols::seti::CUSTOM_FOLDER_GIT
}

/// `nerd_font_symbols::seti::CUSTOM_FOLDER_GITHUB`. Trusted: the constant is the
/// single character U+E5FD in the crate's source.
#[verifier::external_body]
fn glyph_custom_folder_github() -> (r: &'static str)
    ensures
        r@ == seq!['\u{e5fd}'],
{
    nerd_font_symbols::seti::CUSTOM_FOLDER_GITHUB
}

/// `nerd_font_symbols::seti::CUSTOM_FOLDER_NPM`. Trusted: the constant is the
/// single character U+E5FA in the crate's source.
#[verifier::external_body]
fn glyph_custom_folder_npm() -> (r: &'static str)
    ensures
        r@ == seq!['\u{e5fa}'],
{
    nerd_font_symbols::seti::CUSTOM_FOLDER_NPM
}

/// `nerd_font_symbols::seti::CUSTOM_FOLDER_CONFIG`. Trusted: the constant is the
/// single character U+E5FC in the crate's source.
#[verifier::external_body]
fn glyph_custom_folder_config() -> (r: &'static str)
    ensures
        r@ == seq!['\u{e5fc}'],
{
    nerd_font_symbols::seti::CUSTOM_FOLDER_CONFIG
}

/// `nerd_font_symbols::seti::CUSTOM_TOML`. Trusted: the constant is the
/// single character U+E6B2 in the crate's source.
#[verifier::external_body]
fn glyph_custom_toml() -> (r: &'static str)
    ensures
        r@ == seq!['\u{e6b2}'],
{
    nerd_font_symbols::seti::CUSTOM_TOML
}

/// `nerd_font_symbols::seti::CUSTOM_GO`. Trusted: the constant is the
/// single character U+E626 in the crate's source.
#[verifier::external_body]
fn glyph_custom_go() -> (r: &'static str)
    ensures
        r@ == seq!['\u{e626}'],
{
    nerd_font_symbols::seti::CUSTOM_GO
}

/// `nerd_font_symbols::md::MD_ARROW_UP`. Trusted: the constant is the
/// single character U+F005D in the crate's source.
#[verifier::external_body]
fn glyph_md_arrow_up() -> (r: &'static str)
    ensures
        r@ == seq!['\u{f005d}'],
{
    nerd_font_symbols::md::MD_ARROW_UP
}

/// `nerd_font_symbols::md::MD_MAGNIFY`. Trusted: the constant is the
/// single character U+F0349 in the crate's source.
#[verifier::external_body]
fn glyph_md_magnify() -> (r: &'static str)
    ensures
        r@ == seq!['\u{f0349}'],
{
    nerd_font_symbols::md::MD_MAGNIFY
}

/// `nerd_font_symbols::md::MD_EYE_OUTLINE`. Trusted: the constant is the
/// single character U+F06D0 in the crate's source.
#[verifier::external_body]
fn glyph_md_eye_outline() -> (r: &'static str)
    ensures
        r@ == seq!['\u{f06d0}'],
{
    nerd_font_symbols::md::MD_EYE_OUTLINE
}

/// `nerd_font_symbols::md::MD_USB`. Trusted: the constant is the
/// single character U+F0553 in the crate's source.
#[verifier::external_body]
fn glyph_md_usb() -> (r: &'static str)
    ensures
        r@ == seq!['\u{f0553}'],
{
    nerd_font_symbols::md::MD_USB
}

/// `nerd_font_symbols::md::MD_LINK_VARIANT`. Trusted: the constant is the
/// single character U+F0339 in the crate's source.
#[verifier::external_body]
fn glyph_md_link_variant() -> (r: &'static str)
    ensures
        r@ == seq!['\u{f0339}'],
{
    nerd_font_symbols::md::MD_LINK_VARIANT
}

/// `nerd_font_symbols::md::MD_CONSOLE`. Trusted: the constant is the
/// single character U+F018D in the crate's source.
#[verifier::external_body]
fn glyph_md_console() -> (r: &'static str)
    ensures
        r@ == seq!['\u{f018d}'],
{
    nerd_font_symbols::md::MD_CONSOLE
}

/// `nerd_font_symbols::md::MD_EYE_OFF_OUTLINE`. Trusted: the constant is the
/// single character U+F06D1 in the crate's source.
#[verifier::external_body]
fn glyph_md_eye_off_outline() -> (r: &'static str)
    ensures
        r@ == seq!['\u{f06d1}'],
{
    nerd_font_symbols::md::MD_EYE_OFF_OUTLINE
}

/// `nerd_font_symbols::md::MD_BOOK_OPEN_PAGE_VARIANT`. Trusted: the constant is the
/// single character U+F05DA in the crate's source.
#[verifier::external_body]
fn glyph_md_book_open_page_variant() -> (r: &'static str)
    ensures
        r@ == seq!['\u{f05da}'],
{
    nerd_font_symbols::md::MD_BOOK_OPEN_PAGE_VARIANT
}

/// `nerd_font_symbols::md::MD_TEST_TUBE`. Trusted: the constant is the
/// single character U+F0668 in the crate's source.
#[verifier::external_body]
fn glyph_md_test_tube() -> (r: &'static str)
    ensures
        r@ == seq!['\u{f0668}'],
{
    nerd_font_symbols::md::MD_TEST_TUBE
}

/// `nerd_font_symbols::md::MD_PACKAGE_VARIANT_CLOSED`. Trusted: the constant is the
/// single character U+F03D7 in the crate's source.
#[verifier::external_body]
fn glyph_md_package_variant_closed() -> (r: &'static str)
    ensures
        r@ == seq!['\u{f03d7}'],
{
    nerd_font_symbols::md::MD_PACKAGE_VARIANT_CLOSED
}

/// `nerd_font_symbols::md::MD_FOLDER_HIDDEN`. Trusted: the constant is the
/// single character U+F179E in the crate's source.
#[verifier::external_body]
fn glyph_md_folder_hidden() -> (r: &'static str)
    ensures
        r@ == seq!['\u{f179e}'],
{
    nerd_font_symbols::md::MD_FOLDER_HIDDEN
}

/// `nerd_font_symbols::md::MD_LOCK`. Trusted: the constant is the
/// single character U+F033E in the crate's source.
#[verifier::external_body]
fn glyph_md_lock() -> (r: &'static str)
    ensures
        r@ == seq!['\u{f033e}'],
{
    nerd_font_symbols::md::MD_LOCK
}

/// `nerd_font_symbols::md::MD_INFORMATION_OUTLINE`. Trusted: the constant is the
/// single character U+F02FD in the crate's source.
#[verifier::external_body]
fn glyph_md_information_outline() -> (r: &'static str)
    ensures
        r@ == seq!['\u{f02fd}'],
{
    nerd_font_symbols::md::MD_INFORMATION_OUTLINE
}

/// `nerd_font_symbols::md::MD_HAMMER`. Trusted: the constant is the
/// single character U+F08EA in the crate's source.
#[verifier::external_body]
fn glyph_md_hammer() -> (r: &'static str)
    ensures
        r@ == seq!['\u{f08ea}'],
{
    nerd_font_symbols::md::MD_HAMMER
}

/// `nerd_font_symbols::md::MD_CODE_JSON`. Trusted: the constant is the
/// single character U+F0626 in the crate's source.
#[verifier::external_body]
fn glyph_md_code_json() -> (r: &'static str)
    ensures
        r@ == seq!['\u{f0626}'],
{
    nerd_font_symbols::md::MD_CODE_JSON
}

/// `nerd_font_symbols::md::MD_FILE_CODE`. Trusted: the constant is the
/// single character U+F022E in the crate's source.
#[verifier::external_body]
fn glyph_md_file_code() -> (r: &'static str)
    ensures
        r@ == seq!['\u{f022e}'],
{
    nerd_font_symbols::md::MD_FILE_CODE
}

/// `nerd_font_symbols::md::MD_LANGUAGE_MARKDOWN`. Trusted: the constant is the
/// single character U+F0354 in the crate's source.
#[verifier::external_body]
fn glyph_md_language_markdown() -> (r: &'static str)
    ensures
        r@ == seq!['\u{f0354}'],
{
    nerd_font_symbols::md::MD_LANGUAGE_MARKDOWN
}

/// `nerd_font_symbols::md::MD_FILE_IMAGE`. Trusted: the constant is the
/// single character U+F021F in the crate's source.
#[verifier::external_body]
fn glyph_md_file_image() -> (r: &'static str)
    ensures
        r@ == seq!['\u{f021f}'],
{
    nerd_font_symbols::md::MD_FILE_IMAGE
}

/// `nerd_font_symbols::md::MD_FILE_VIDEO`. Trusted: the constant is the
/// single character U+F022B in the crate's source.
#[verifier::external_body]
fn glyph_md_file_video() -> (r: &'static str)
    ensures
        r@ == seq!['\u{f022b}'],
{
    nerd_font_symbols::md::MD_FILE_VIDEO
}

/// `nerd_font_symbols::md::MD_FILE_MUSIC`. Trusted: the constant is the
/// single character U+F0223 in the crate's source.
#[verifier::external_body]
fn glyph_md_file_music() -> (r: &'static str)
    ensures
        r@ == seq!['\u{f0223}'],
{
    nerd_font_symbols::md::MD_FILE_MUSIC
}

/// `nerd_font_symbols::md::MD_FOLDER_ZIP`. Trusted: the constant is the
/// single character U+F06EB in the crate's source.
#[verifier::external_body]
fn glyph_md_folder_zip() -> (r: &'static str)
    ensures
        r@ == seq!['\u{f06eb}'],
{
    nerd_font_symbols::md::MD_FOLDER_ZIP
}

/// `nerd_font_symbols::md::MD_TEXT_BOX_OUTLINE`. Trusted: the constant is the
/// single character U+F09ED in the crate's source.
#[verifier::external_body]
fn glyph_md_text_box_outline() -> (r: &'static str)
    ensures
        r@ == seq!['\u{f09ed}'],
{
    nerd_font_symbols::md::MD_TEXT_BOX_OUTLINE
}

/// `nerd_font_symbols::dev::DEV_RUST`. Trusted: the constant is the
/// single character U+E7A8 in the crate's source.
#[verifier::external_body]
fn glyph_dev_rust() -> (r: &'static str)
    ensures
        r@ == seq!['\u{e7a8}'],
{
    nerd_font_symbols::dev::DEV_RUST
}

/// `nerd_font_symbols::dev::DEV_PYTHON`. Trusted: the constant is the
/// single character U+E73C in the crate's source.
#[verifier::external_body]
fn glyph_dev_python() -> (r: &'static str)
    ensures
        r@ == seq!['\u{e73c}'],
{
    nerd_font_symbols::dev::DEV_PYTHON
}

/// `nerd_font_symbols::dev::DEV_JAVASCRIPT`. Trusted: the constant is the
/// single character U+E781 in the crate's source.
#[verifier::external_body]
fn glyph_dev_javascript() -> (r: &'static str)
    ensures
        r@ == seq!['\u{e781}'],
{
    nerd_font_symbols::dev::DEV_JAVASCRIPT
}

/// `nerd_font_symbols::dev::DEV_TYPESCRIPT`. Trusted: the constant is the
/// single character U+E8CA in the crate's source.
#[verifier::external_body]
fn glyph_dev_typescript() -> (r: &'static str)
    ensures
        r@ == seq!['\u{e8ca}'],
{
    nerd_font_symbols::dev::DEV_TYPESCRIPT
}

/// `nerd_font_symbols::dev::DEV_REACT`. Trusted: the constant is the
/// single character U+E7BA in the crate's source.
#[verifier::external_body]
fn glyph_dev_react() -> (r: &'static str)
    ensures
        r@ == seq!['\u{e7ba}'],
{
    nerd_font_symbols::dev::DEV_REACT
}

/// The `app_explore` glyph.
pub fn app_explore() -> (r: &'static str)
    ensures
        r@ == pick_spec(seq!['\u{e5ff}'], "◆"@),
{
    pick(glyph_custom_folder(), "◆")
}

/// The `home` glyph.
pub fn home() -> (r: &'static str)
    ensures
        r@ == pick_spec(seq!['\u{e617}'], "~"@),
{
    pick(glyph_custom_home(), "~")
}

/// The `parent` glyph.
pub fn parent() -> (r: &'static str)
    ensures
        r@ == pick_spec(seq!['\u{f005d}'], "↑"@),
{
    pick(glyph_md_arrow_up(), "↑")
}

/// The `search` glyph.
pub fn search() -> (r: &'static str)
    ensures
        r@ == pick_spec(seq!['\u{f0349}'], "/"@),
{
    pick(glyph_md_magnify(), "/")
}

/// The `preview` glyph.
pub fn preview() -> (r: &'static str)
    ensures
        r@ == pick_spec(seq!['\u{f06d0}'], "◎"@),
{
    pick(glyph_md_eye_outline(), "◎")
}

/// The `drive` glyph.
pub fn drive() -> (r: &'static str)
    ensures
        r@ == pick_spec(seq!['\u{f0553}'], "▣"@),
{
    pick(glyph_md_usb(), "▣")
}

/// The `symlink` glyph.
pub fn symlink() -> (r: &'static str)
    ensures
        r@ == pick_spec(seq!['\u{f0339}'], "⤷"@),
{
    pick(glyph_md_link_variant(), "⤷")
}

/// The `executable` glyph.
pub fn executable() -> (r: &'static str)
    ensures
        r@ == pick_spec(seq!['\u{f018d}'], "⚡"@),
{
    pick(glyph_md_console(), "⚡")
}

/// The `hidden` glyph.
pub fn hidden() -> (r: &'static str)
    ensures
        r@ == pick_spec(seq!['\u{f06d1}'], "·"@),
{
    pick(glyph_md_eye_off_outline(), "·")
}

/// The `folder_closed` glyph.
pub fn folder_closed() -> (r: &'static str)
    ensures
        r@ == pick_spec(seq!['\u{e5ff}'], "▸"@),
{
    pick(glyph_custom_folder(), "▸")
}

/// The `folder_open` glyph.
pub fn folder_open() -> (r: &'static str)
    ensures
        r@ == pick_spec(seq!['\u{e5fe}'], "▾"@),
{
    pick(glyph_custom_folder_open(), "▾")
}

/// The `file_plain` glyph.
pub fn file_plain() -> (r: &'static str)
    ensures
        r@ == pick_spec(seq!['\u{e612}'], "·"@),
{
    pick(glyph_custom_default(), "·")
}

/// Glyphs for directories, by lowercase name.
pub open spec fn glyph_dir_table() -> Seq<(Seq<char>, Seq<char>)> {
    seq![
        ("src"@, pick_spec(seq!['\u{e7a8}'], "◈"@)),
        ("source"@, pick_spec(seq!['\u{e7a8}'], "◈"@)),
        ("lib"@, pick_spec(seq!['\u{e7a8}'], "◈"@)),
        (".git"@, pick_spec(seq!['\u{e5fb}'], "◎"@)),
        (".github"@, pick_spec(seq!['\u{e5fd}'], "◎"@)),
        ("node_modules"@, pick_spec(seq!['\u{e5fa}'], "▣"@)),
        ("vendor"@, pick_spec(seq!['\u{e5fa}'], "▣"@)),
        ("target"@, pick_spec(seq!['\u{e5fa}'], "▣"@)),
        ("docs"@, pick_spec(seq!['\u{f05da}'], "≡"@)),
        ("doc"@, pick_spec(seq!['\u{f05da}'], "≡"@)),
        ("test"@, pick_spec(seq!['\u{f0668}'], "◇"@)),
        ("tests"@, pick_spec(seq!['\u{f0668}'], "◇"@)),
        ("config"@, pick_spec(seq!['\u{e5fc}'], "⚙"@)),
        ("conf"@, pick_spec(seq!['\u{e5fc}'], "⚙"@)),
        (".config"@, pick_spec(seq!['\u{e5fc}'], "⚙"@)),
        ("dist"@, pick_spec(seq!['\u{f03d7}'], "▣"@)),
        ("build"@, pick_spec(seq!['\u{f03d7}'], "▣"@)),
        ("out"@, pick_spec(seq!['\u{f03d7}'], "▣"@)),
    ]
}

/// Glyphs for well-known files, by lowercase file name.
pub open spec fn glyph_name_table() -> Seq<(Seq<char>, Seq<char>)> {
    seq![
        ("cargo.toml"@, pick_spec(seq!['\u{e6b2}'], "◈"@)),
        ("cargo.lock"@, pick_spec(seq!['\u{f033e}'], "◌"@)),
        ("package-lock.json"@, pick_spec(seq!['\u{f033e}'], "◌"@)),
        ("yarn.lock"@, pick_spec(seq!['\u{f033e}'], "◌"@)),
        ("package.json"@, pick_spec(seq!['\u{f03d7}'], "◌"@)),
        ("readme.md"@, pick_spec(seq!['\u{f02fd}'], "≡"@)),
        ("readme"@, pick_spec(seq!['\u{f02fd}'], "≡"@)),
        ("makefile"@, pick_spec(seq!['\u{f08ea}'], "◌"@)),
    ]
}

/// Glyphs for files, by lowercase extension.
pub open spec fn glyph_ext_table() -> Seq<(Seq<char>, Seq<char>)> {
    seq![
        ("rs"@, pick_spec(seq!['\u{e7a8}'], "◈"@)),
        ("py"@, pick_spec(seq!['\u{e73c}'], "◈"@)),
        ("js"@, pick_spec(seq!['\u{e781}'], "◈"@)),
        ("mjs"@, pick_spec(seq!['\u{e781}'], "◈"@)),
        ("cjs"@, pick_spec(seq!['\u{e781}'], "◈"@)),
        ("ts"@, pick_spec(seq!['\u{e8ca}'], "◈"@)),
        ("tsx"@, pick_spec(seq!['\u{e8ca}'], "◈"@)),
        ("jsx"@, pick_spec(seq!['\u{e7ba}'], "◈"@)),
        ("go"@, pick_spec(seq!['\u{e626}'], "◈"@)),
        ("json"@, pick_spec(seq!['\u{f0626}'], "◌"@)),
        ("jsonc"@, pick_spec(seq!['\u{f0626}'], "◌"@)),
        ("yaml"@, pick_spec(seq!['\u{f022e}'], "◌"@)),
        ("yml"@, pick_spec(seq!['\u{f022e}'], "◌"@)),
        ("toml"@, pick_spec(seq!['\u{e6b2}'], "◌"@)),
        ("md"@, pick_spec(seq!['\u{f0354}'], "≡"@)),
        ("mdx"@, pick_spec(seq!['\u{f0354}'], "≡"@)),
        ("sh"@, pick_spec(seq!['\u{f018d}'], "◌"@)),
        ("bash"@, pick_spec(seq!['\u{f018d}'], "◌"@)),
        ("zsh"@, pick_spec(seq!['\u{f018d}'], "◌"@)),
        ("png"@, pick_spec(seq!['\u{f021f}'], "□"@)),
        ("jpg"@, pick_spec(seq!['\u{f021f}'], "□"@)),
        ("jpeg"@, pick_spec(seq!['\u{f021f}'], "□"@)),
        ("gif"@, pick_spec(seq!['\u{f021f}'], "□"@)),
        ("svg"@, pick_spec(seq!['\u{f021f}'], "□"@)),
        ("webp"@, pick_spec(seq!['\u{f021f}'], "□"@)),
        ("mp4"@, pick_spec(seq!['\u{f022b}'], "▷"@)),
        ("mkv"@, pick_spec(seq!['\u{f022b}'], "▷"@)),
        ("mov"@, pick_spec(seq!['\u{f022b}'], "▷"@)),
        ("webm"@, pick_spec(seq!['\u{f022b}'], "▷"@)),
        ("mp3"@, pick_spec(seq!['\u{f0223}'], "♪"@)),
        ("wav"@, pick_spec(seq!['\u{f0223}'], "♪"@)),
        ("flac"@, pick_spec(seq!['\u{f0223}'], "♪"@)),
        ("ogg"@, pick_spec(seq!['\u{f0223}'], "♪"@)),
        ("zip"@, pick_spec(seq!['\u{f06eb}'], "▣"@)),
        ("tar"@, pick_spec(seq!['\u{f06eb}'], "▣"@)),
        ("gz"@, pick_spec(seq!['\u{f06eb}'], "▣"@)),
        ("7z"@, pick_spec(seq!['\u{f06eb}'], "▣"@)),
        ("rar"@, pick_spec(seq!['\u{f06eb}'], "▣"@)),
        ("lock"@, pick_spec(seq!['\u{f033e}'], "◌"@)),
        ("log"@, pick_spec(seq!['\u{f09ed}'], "≡"@)),
    ]
}

/// The directory glyph table.
fn glyph_dirs() -> (r: Vec<(&'static str, &'static str)>)
    ensures
        table_view(r@) == glyph_dir_table(),
{
    let r = vec![
        ("src", pick(glyph_dev_rust(), "◈")),
        ("source", pick(glyph_dev_rust(), "◈")),
        ("lib", pick(glyph_dev_rust(), "◈")),
        (".git", pick(glyph_custom_folder_git(), "◎")),
        (".github", pick(glyph_custom_folder_github(), "◎")),
        ("node_modules", pick(glyph_custom_folder_npm(), "▣")),
        ("vendor", pick(glyph_custom_folder_npm(), "▣")),
        ("target", pick(glyph_custom_folder_npm(), "▣")),
        ("docs", pick(glyph_md_book_open_page_variant(), "≡")),
        ("doc", pick(glyph_md_book_open_page_variant(), "≡")),
        ("test", pick(glyph_md_test_tube(), "◇")),
        ("tests", pick(glyph_md_test_tube(), "◇")),
        ("config", pick(glyph_custom_folder_config(), "⚙")),
        ("conf", pick(glyph_custom_folder_config(), "⚙")),
        (".config", pick(glyph_custom_folder_config(), "⚙")),
        ("dist", pick(glyph_md_package_variant_closed(), "▣")),
        ("build", pick(glyph_md_package_variant_closed(), "▣")),
        ("out", pick(glyph_md_package_variant_closed(), "▣")),
    ];
    assert(table_view(r@) =~= glyph_dir_table());
    r
}

/// The file-name glyph table.
fn glyph_names() -> (r: Vec<(&'static str, &'static str)>)
    ensures
        table_view(r@) == glyph_name_table(),
{
    let r = vec![
        ("cargo.toml", pick(glyph_custom_toml(), "◈")),
        ("cargo.lock", pick(glyph_md_lock(), "◌")),
        ("package-lock.json", pick(glyph_md_lock(), "◌")),
        ("yarn.lock", pick(glyph_md_lock(), "◌")),
        ("package.json", pick(glyph_md_package_variant_closed(), "◌")),
        ("readme.md", pick(glyph_md_information_outline(), "≡")),
        ("readme", pick(glyph_md_information_outline(), "≡")),
        ("makefile", pick(glyph_md_hammer(), "◌")),
    ];
    assert(table_view(r@) =~= glyph_name_table());
    r
}

/// The extension glyph table.
fn glyph_exts() -> (r: Vec<(&'static str, &'static str)>)
    ensures
        table_view(r@) == glyph_ext_table(),
{
    let r = vec![
        ("rs", pick(glyph_dev_rust(), "◈")),
        ("py", pick(glyph_dev_python(), "◈")),
        ("js", pick(glyph_dev_javascript(), "◈")),
        ("mjs", pick(glyph_dev_javascript(), "◈")),
        ("cjs", pick(glyph_dev_javascript(), "◈")),
        ("ts", pick(glyph_dev_typescript(), "◈")),
        ("tsx", pick(glyph_dev_typescript(), "◈")),
        ("jsx", pick(glyph_dev_react(), "◈")),
        ("go", pick(glyph_custom_go(), "◈")),
        ("json", pick(glyph_md_code_json(), "◌")),
        ("jsonc", pick(glyph_md_code_json(), "◌")),
        ("yaml", pick(glyph_md_file_code(), "◌")),
        ("yml", pick(glyph_md_file_code(), "◌")),
        ("toml", pick(glyph_custom_toml(), "◌")),
        ("md", pick(glyph_md_language_markdown(), "≡")),
        ("mdx", pick(glyph_md_language_markdown(), "≡")),
        ("sh", pick(glyph_md_console(), "◌")),
        ("bash", pick(glyph_md_console(), "◌")),
        ("zsh", pick(glyph_md_console(), "◌")),
        ("png", pick(glyph_md_file_image(), "□")),
        ("jpg", pick(glyph_md_file_image(), "□")),
        ("jpeg", pick(glyph_md_file_image(), "□")),
        ("gif", pick(glyph_md_file_image(), "□")),
        ("svg", pick(glyph_md_file_image(), "□")),
        ("webp", pick(glyph_md_file_image(), "□")),
        ("mp4", pick(glyph_md_file_video(), "▷")),
        ("mkv", pick(glyph_md_file_video(), "▷")),
        ("mov", pick(glyph_md_file_video(), "▷")),
        ("webm", pick(glyph_md_file_video(), "▷")),
        ("mp3", pick(glyph_md_file_music(), "♪")),
        ("wav", pick(glyph_md_file_music(), "♪")),
        ("flac", pick(glyph_md_file_music(), "♪")),
        ("ogg", pick(glyph_md_file_music(), "♪")),
        ("zip", pick(glyph_md_folder_zip(), "▣")),
        ("tar", pick(glyph_md_folder_zip(), "▣")),
        ("gz", pick(glyph_md_folder_zip(), "▣")),
        ("7z", pick(glyph_md_folder_zip(), "▣")),
        ("rar", pick(glyph_md_folder_zip(), "▣")),
        ("lock", pick(glyph_md_lock(), "◌")),
        ("log", pick(glyph_md_text_box_outline(), "≡")),
    ];
    assert(table_view(r@) =~= glyph_ext_table());
    r
}


// ── Icon choice ────────────────────────────────────────────────────────────

/// The last `.`-separated piece of a name (the whole name when it has no
/// `.`); for `archive.tar.gz` it is `gz`.
pub open spec fn last_dot_piece(name: Seq<char>) -> Seq<char> {
    split_on(name, '.').last()
}

/// The lowercase last `.`-piece of a name.
fn lower_extension(name: &str) -> (r: Vec<char>)
    ensures
        r@ == unicode_lowercase(last_dot_piece(name@)),
{
    let pieces = split_chars(&chars_of(name), '.');
    proof {
        crate::text::lemma_split_nonempty(name@, '.');
    }
    let last = crate::text::string_of(&pieces[pieces.len() - 1]);
    chars_of(lowercase(last.as_str()).as_str())
}

/// The emoji `file_icon` shows for an entry.
pub open spec fn emoji_for(name: Seq<char>, is_dir: bool) -> Seq<char> {
    let n = unicode_lowercase(name);
    if is_dir {
        match first_icon(emoji_dir_table(), n) {
            Some(i) => i,
            None => "📁"@,
        }
    } else {
        match first_icon(emoji_name_table(), n) {
            Some(i) => i,
            None => match first_icon(emoji_ext_table(), unicode_lowercase(last_dot_piece(name))) {
                Some(i) => i,
                None => "📄"@,
            },
        }
    }
}

/// The emoji for a file or directory: directories by lowercase name
/// (default 📁); files by lowercase file name, then by lowercase extension
/// (default 📄).
pub fn file_icon(name: &str, is_dir: bool) -> (r: &'static str)
    ensures
        r@ == emoji_for(name@, is_dir),
{
    let n = chars_of(lowercase(name).as_str());
    if is_dir {
        return match find_icon(&emoji_dirs(), &n) {
            Some(i) => i,
            None => "📁",
        };
    }
    if let Some(i) = find_icon(&emoji_names(), &n) {
        return i;
    }
    match find_icon(&emoji_exts(), &lower_extension(name)) {
        Some(i) => i,
        None => "📄",
    }
}

/// The glyph the explorer shows for a directory.
pub open spec fn dir_glyph(name: Seq<char>) -> Seq<char> {
    match first_icon(glyph_dir_table(), unicode_lowercase(name)) {
        Some(i) => i,
        None => if crate::text::has_prefix(name, seq!['.']) {
            pick_spec(seq!['\u{f179e}'], "·"@)
        } else {
            pick_spec(seq!['\u{e5ff}'], "▸"@)
        },
    }
}

/// The glyph the explorer shows for a file.
pub open spec fn file_glyph(name: Seq<char>) -> Seq<char> {
    match first_icon(glyph_name_table(), unicode_lowercase(name)) {
        Some(i) => i,
        None => match first_icon(glyph_ext_table(), unicode_lowercase(last_dot_piece(name))) {
            Some(i) => i,
            None => pick_spec(seq!['\u{e612}'], "·"@),
        },
    }
}

/// Icons ignore case: two names with the same lowercase form and the same
/// lowercase extension get the same emoji and the same file glyph, and two
/// directory names with the same lowercase form that both start with `.`
/// or both do not get the same directory glyph.
pub proof fn law_icons_ignore_case(a: Seq<char>, b: Seq<char>, is_dir: bool)
    requires
        unicode_lowercase(a) == unicode_lowercase(b),
        unicode_lowercase(last_dot_piece(a)) == unicode_lowercase(last_dot_piece(b)),
    ensures
        emoji_for(a, is_dir) == emoji_for(b, is_dir),
        file_glyph(a) == file_glyph(b),
        crate::text::has_prefix(a, seq!['.']) == crate::text::has_prefix(b, seq!['.']) ==> dir_glyph(a) == dir_glyph(b),
{
}

/// The glyph for a directory: by lowercase name, else a hidden-folder
/// glyph for names starting with `.`, else a plain folder.
fn dir_icon(name: &str) -> (r: &'static str)
    ensures
        r@ == dir_glyph(name@),
{
    let n = chars_of(lowercase(name).as_str());
    match find_icon(&glyph_dirs(), &n) {
        Some(i) => i,
        None => {
            let raw = chars_of(name);
            if raw.len() > 0 && raw[0] == '.' {
                assert(crate::text::has_prefix(name@, seq!['.'])) by {
                    assert(name@.subrange(0, 1) =~= seq!['.']);
                }
                pick(glyph_md_folder_hidden(), "·")
            } else {
                assert(!crate::text::has_prefix(name@, seq!['.'])) by {
                    if crate::text::has_prefix(name@, seq!['.']) {
                        assert(name@.subrange(0, 1)[0] == name@[0]);
                    }
                }
                folder_closed()
            }
        },
    }
}

/// The glyph for a file: by lowercase file name, then by lowercase
/// extension, else a plain file.
fn file_icon_for_name(name: &str) -> (r: &'static str)
    ensures
        r@ == file_glyph(name@),
{
    let n = chars_of(lowercase(name).as_str());
    if let Some(i) = find_icon(&glyph_names(), &n) {
        return i;
    }
    match find_icon(&glyph_exts(), &lower_extension(name)) {
        Some(i) => i,
        None => file_plain(),
    }
}

/// The explorer glyph for an entry.
pub fn entry_icon(name: &str, is_dir: bool) -> (r: &'static str)
    ensures
        r@ == if is_dir { dir_glyph(name@) } else { file_glyph(name@) },
{
    if is_dir {
        dir_icon(name)
    } else {
        file_icon_for_name(name)
    }
}

// ── Icon tones ─────────────────────────────────────────────────────────────

/// Directory names drawn muted: dependencies, build output, git data.
pub open spec fn muted_dir_names() -> Seq<Seq<char>> {
    seq!["node_modules"@, "vendor"@, "target"@, "build"@, "dist"@, ".git"@, ".github"@]
}

/// Directory names drawn bright: sources, tests, docs.
pub open spec fn bright_dir_names() -> Seq<Seq<char>> {
    seq!["src"@, "source"@, "lib"@, "test"@, "tests"@, "docs"@, "doc"@]
}

/// Extensions drawn muted: locks, logs, backups, temporary files.
pub open spec fn muted_extensions() -> Seq<Seq<char>> {
    seq!["lock"@, "log"@, "bak"@, "tmp"@, "swp"@]
}

/// The tone of an entry's icon: by lowercase name for directories
/// (muted, bright, dim for other hidden ones, else normal), by lowercase
/// extension for files (muted, else dim).
pub open spec fn icon_tone(name: Seq<char>, is_dir: bool) -> Tone {
    if is_dir {
        let n = unicode_lowercase(name);
        if muted_dir_names().contains(n) {
            Tone::Muted
        } else if bright_dir_names().contains(n) {
            Tone::Bright
        } else if name.len() > 0 && name[0] == '.' {
            Tone::Dim
        } else {
            Tone::Normal
        }
    } else if muted_extensions().contains(unicode_lowercase(last_dot_piece(name))) {
        Tone::Muted
    } else {
        Tone::Dim
    }
}

/// The tone an entry's icon is drawn in (see `icon_tone`).
pub fn file_icon_color(name: &str, is_dir: bool) -> (r: Tone)
    ensures
        r == icon_tone(name@, is_dir),
{
    if is_dir {
        let n = lowercase(name);
        let muted: Vec<&'static str> = vec!["node_modules", "vendor", "target", "build", "dist", ".git", ".github"];
        assert(texts(muted@) =~= muted_dir_names());
        if listed(&muted, n.as_str()) {
            return Tone::Muted;
        }
        let bright: Vec<&'static str> = vec!["src", "source", "lib", "test", "tests", "docs", "doc"];
        assert(texts(bright@) =~= bright_dir_names());
        if listed(&bright, n.as_str()) {
            return Tone::Bright;
        }
        let cs = chars_of(name);
        if cs.len() > 0 && cs[0] == '.' {
            Tone::Dim
        } else {
            Tone::Normal
        }
    } else {
        let e = crate::text::string_of(&lower_extension(name));
        let muted: Vec<&'static str> = vec!["lock", "log", "bak", "tmp", "swp"];
        assert(texts(muted@) =~= muted_extensions());
        if listed(&muted, e.as_str()) {
            Tone::Muted
        } else {
            Tone::Dim
        }
    }
}

} // verus!
