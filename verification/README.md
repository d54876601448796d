# ksef_tool

Builds a KSeF FA(3) invoice XML from a JSON invoice descriptor.

- `src/` is the verified library:
  - `text`: white space, trimming, character classes and decimal notation over `Seq<char>`.
  - `decimal`: `Dec`, a decimal held as mantissa and scale, and the rounding it gets from
    `rust_decimal`.
  - `model`: the invoice descriptor.
  - `validation`: the rules a descriptor must meet, reported as a list of `path: message`
    errors; NIP checksum.
  - `validation_laws`: the error list field by field, one entry per failed check, and the
    errors the NIP checksum catches (any one changed digit, any swap of adjacent digits).
  - `exchange`: the NBP exchange-rate lookup as decisions: request URL, meaning of each
    response, retries with doubling waits, rounding of the rate.
  - `invoice`: the invoice number, reverse charge and EU identification of a buyer abroad,
    payment method and due day.
  - `fa3`: the FA(3) invoice as a model of plain values (`model_of`: which value goes into
    which party, identification, line and payment field), built by `fa3_model`; its conversion
    into `invoice_gen`'s types and its XML (`invoice_xml`), with the bound that keeps the
    amounts within `Decimal`'s range; the dates as `chrono` writes them.
- `app/` is the command-line program: reading the file, JSON decoding, HTTP requests, the
  clock, and printing the XML.
