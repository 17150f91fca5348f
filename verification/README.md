# kemono_to_epub

Makes an EPUB book of a kemono creator's posts.

- `src/` is the verified library.
  - `text.rs`: searching, replacing, trimming, decimal numbers and UTF-8 byte
    offsets on the characters of strings.
  - `epub.rs`: the creator, post, request and title types, and the book's title
    with its placeholders (`{Creator.name}`, `{Posts.first}`, `{Posts.last}`,
    `{Posts.count}`; a `\` after `{` keeps one from being filled in).
  - `epub/simple_xml_builder.rs`: the XML element builder.
  - `epub/address.rs`: the service and id in a profile address, API addresses.
  - `epub/fetch.rs`: when to stop fetching pages of posts.
  - `epub/dialog.rs`: the questions asked before the book is made.
  - `epub/images.rs`: rewriting a post's image tags and listing its images.
  - `epub/documents.rs`: the container, chapters, table of contents, cover and
    package documents.
  - `epub/archive.rs`: the archive entries in order, with the downloads between them.
- `app/` is the command-line program: terminal, network and the ZIP file.
- `tests/` runs the library on concrete values.
