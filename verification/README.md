# docsite_to_md

Export documentation sites (GitBook, Docusaurus, MkDocs Material, VitePress,
Nextra, and generic HTML docs) to Markdown: a mirror tree of pages with a
manifest and a links list, or a single bundle file.

The library in `src/` is verified with Verus. It holds the logic: framework
detection, navigation discovery and scoping, the crawl and page-export state
machines, retry and pacing decisions, duplicate detection, bundle rendering,
and Markdown normalization. Parsing of URLs, HTML and regular expressions,
HTML-to-Markdown conversion and SHA-256 are delegated to the `url`, `scraper`,
`regex`, `html2md` and `sha2` crates behind small trusted wrappers whose
contracts name their results. Before HTML goes to `html2md`, its document tree
(built with `html5ever` exactly as `html2md` builds it) is checked for the
shape on which `html2md` can panic: a list item outside any list that lies
under a link, emphasis or quote. Such pages are reported as unconvertible.

`app/` is the command-line program (`detect`, `crawl`, `export`, `bundle`):
it does the network requests, file writes and JSON output, and drives the
library's state machines.
